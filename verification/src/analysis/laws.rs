//! What holds of every report, whatever was measured.
use vstd::prelude::*;

use crate::analysis::findings::{
    age_findings, ata_findings, battery_findings, battery_report, channel_findings,
    component_findings, crash_findings, critical_warning_findings, degradation_findings,
    drive_findings, drives_findings, endurance_findings, firmware_findings, firmware_report,
    gpu_findings, hardware_error_findings, life_findings, media_error_findings, memory_report,
    nvme_findings, pack_findings, packs_findings, pending_findings, power_loss_findings,
    reallocated_findings, soldered_findings, spare_findings, speed_findings, stability_report,
    storage_report, swap_findings, uncorrectable_findings, HOURS_PER_YEAR,
};
use crate::analysis::order::{of_severity, picked_findings_fit, worst_first};
use crate::model::{FindingView, ReadingView, Severity};
use crate::probes::ata_smart::AtaHealthView;
use crate::probes::battery::BatteryReportView;
use crate::probes::battery_history::BatteryHistoryView;
use crate::probes::crashes::CrashHistoryView;
use crate::probes::firmware::FirmwareReportView;
use crate::probes::gpu::GpuReportView;
use crate::probes::memory::MemoryReportView;
use crate::probes::storage::{DriveHealthView, DriveReportView, NvmeHealthView};
use crate::probes::InventoryView;

verus! {

/// A finding says what was seen, what was expected, where that expectation comes from, and
/// what to do.
pub open spec fn justified(f: FindingView) -> bool {
    &&& f.id.len() > 0
    &&& f.title.len() > 0
    &&& f.observed.len() > 0
    &&& f.expected.len() > 0
    &&& f.basis.len() > 0
    &&& f.recommendation.len() > 0
}

/// Every finding of a report is justified.
pub open spec fn all_justified(s: Seq<FindingView>) -> bool {
    forall|i: int| 0 <= i < s.len() ==> justified(#[trigger] s[i])
}

/// Ordering a report of justified findings keeps them justified.
pub proof fn ordering_keeps_justification(s: Seq<FindingView>)
    requires
        all_justified(s),
    ensures
        all_justified(worst_first(s)),
{
    picked_findings_fit(s, Severity::Critical);
    picked_findings_fit(s, Severity::Problem);
    picked_findings_fit(s, Severity::Watch);
    picked_findings_fit(s, Severity::Fine);
    assert forall|i: int| 0 <= i < worst_first(s).len() implies justified(
        #[trigger] worst_first(s)[i],
    ) by {
        let c = of_severity(s, Severity::Critical);
        let p = of_severity(s, Severity::Problem);
        let w = of_severity(s, Severity::Watch);
        let f = of_severity(s, Severity::Fine);
        if i < c.len() {
            assert(s.contains(c[i]));
        } else if i < c.len() + p.len() {
            assert(s.contains(p[i - c.len()]));
        } else if i < c.len() + p.len() + w.len() {
            assert(s.contains(w[i - c.len() - p.len()]));
        } else {
            assert(s.contains(f[i - c.len() - p.len() - w.len()]));
        }
    }
}

proof fn pending_findings_are_justified(label: Seq<char>, index: u32, count: ReadingView<u64>)
    ensures
        all_justified(pending_findings(label, index, count)),
{
    reveal_strlit("storage.pending.");
    reveal_strlit(" has unreadable sectors");
    reveal_strlit(" sector(s) pending reallocation");
    reveal_strlit("0");
    reveal_strlit("SMART attribute 197; any non-zero value means data the drive cannot currently read");
    reveal_strlit("Treat this drive as failing. Do not store anything you care about on it, and price the machine assuming it needs replacing.");
}

proof fn uncorrectable_findings_are_justified(label: Seq<char>, index: u32, count: ReadingView<u64>)
    ensures
        all_justified(uncorrectable_findings(label, index, count)),
{
    reveal_strlit("storage.uncorrectable.");
    reveal_strlit(" has uncorrectable sectors");
    reveal_strlit(" uncorrectable sector(s)");
    reveal_strlit("0");
    reveal_strlit("SMART attribute 198; these sectors have already lost data");
    reveal_strlit("Data loss has already occurred on this drive. Replace it.");
}

proof fn reallocated_findings_are_justified(label: Seq<char>, index: u32, count: ReadingView<u64>)
    ensures
        all_justified(reallocated_findings(label, index, count)),
{
    reveal_strlit("storage.realloc.");
    reveal_strlit(" has extensive sector remapping");
    reveal_strlit(" reallocated sectors");
    reveal_strlit("0");
    reveal_strlit("SMART attribute 5; remapping at this scale usually accelerates");
    reveal_strlit("The drive is consuming its spare area. Budget for a replacement.");
    reveal_strlit(" has remapped sectors");
    reveal_strlit(" reallocated sector(s)");
    reveal_strlit("SMART attribute 5");
    reveal_strlit("A small count can stay stable for years, but re-check the trend if you keep the drive.");
}

proof fn life_findings_are_justified(label: Seq<char>, index: u32, life: ReadingView<u8>)
    ensures
        all_justified(life_findings(label, index, life)),
{
    reveal_strlit("storage.life.");
    reveal_strlit(" is near the end of its write endurance");
    reveal_strlit("% endurance remaining");
    reveal_strlit("above 20%");
    reveal_strlit("SSD wear-levelling attribute, normalised by the drive's own controller");
    reveal_strlit("Assume this SSD needs replacing soon and negotiate accordingly.");
}

proof fn age_findings_are_justified(label: Seq<char>, index: u32, hours: ReadingView<u64>)
    ensures
        all_justified(age_findings(label, index, hours)),
{
    reveal_strlit("storage.age.");
    reveal_strlit(" has ");
    reveal_strlit(" power-on hours");
    reveal_strlit(" hours, about ");
    reveal_strlit(" years of powered operation");
    reveal_strlit("consistent with the age the seller states");
    reveal_strlit("SMART power-on hours, which a seller cannot reset by reinstalling Windows");
    reveal_strlit("Cross-check against the claimed age. A machine described as lightly used should not show years of runtime.");
}

proof fn critical_warning_findings_are_justified(label: Seq<char>, index: u32, warning: u8)
    ensures
        all_justified(critical_warning_findings(label, index, warning)),
{
    reveal_strlit("storage.critical.");
    reveal_strlit(" is reporting a critical warning");
    reveal_strlit("critical warning bitmask 0x");
    reveal_strlit("0x00");
    reveal_strlit("NVMe SMART/Health log page 02h, critical warning field");
    reveal_strlit("The controller is flagging an active fault. Do not buy on the assumption this drive is usable.");
}

proof fn endurance_findings_are_justified(label: Seq<char>, index: u32, used: ReadingView<u8>)
    ensures
        all_justified(endurance_findings(label, index, used)),
{
    reveal_strlit("storage.used.");
    reveal_strlit(" has consumed its rated endurance");
    reveal_strlit("% of rated write endurance used");
    reveal_strlit("below 80%");
    reveal_strlit("NVMe percentage-used field, computed by the drive's own controller");
    reveal_strlit("Price the machine as needing a new SSD.");
    reveal_strlit(" is well into its rated endurance");
    reveal_strlit("NVMe percentage-used field");
    reveal_strlit("Usable, but factor a future SSD replacement into the price.");
}

proof fn spare_findings_are_justified(
    label: Seq<char>,
    index: u32,
    spare: ReadingView<u8>,
    threshold: ReadingView<u8>,
)
    ensures
        all_justified(spare_findings(label, index, spare, threshold)),
{
    reveal_strlit("storage.spare.");
    reveal_strlit(" has exhausted its spare blocks");
    reveal_strlit("% spare remaining");
    reveal_strlit("at or above the drive's ");
    reveal_strlit("% threshold");
    reveal_strlit("NVMe available-spare vs the controller's own threshold");
    reveal_strlit("This drive is at end of life by its manufacturer's definition.");
}

proof fn media_error_findings_are_justified(label: Seq<char>, index: u32, errors: ReadingView<u64>)
    ensures
        all_justified(media_error_findings(label, index, errors)),
{
    reveal_strlit("storage.media.");
    reveal_strlit(" has logged media errors");
    reveal_strlit(" media/data-integrity error(s)");
    reveal_strlit("0");
    reveal_strlit("NVMe media and data integrity errors counter");
    reveal_strlit("The drive has encountered data it could not return correctly. Replace it.");
}

proof fn pack_findings_are_justified(i: nat, pack: BatteryReportView)
    ensures
        all_justified(pack_findings(i, pack)),
{
    reveal_strlit("battery.health.");
    reveal_strlit("Battery at ");
    reveal_strlit("% of design capacity");
    reveal_strlit("above 80% for a well-kept machine");
    reveal_strlit("Full-charge capacity against design capacity, as reported by the pack");
    reveal_strlit("Expect to replace the pack. Get a quote for this model and take it off the price.");
    reveal_strlit("Noticeably degraded. Usable, but runtime will be well below the original.");
    reveal_strlit("Healthy for a used machine.");
}

proof fn swap_findings_are_justified(h: BatteryHistoryView)
    ensures
        all_justified(swap_findings(h)),
{
    reveal_strlit("battery.swapped");
    reveal_strlit("The battery has been replaced at some point");
    reveal_strlit("Windows recorded a battery change in its power history");
    reveal_strlit("the original pack, for a machine described as original");
    reveal_strlit("BatteryChanged flag in the powercfg battery report history");
    reveal_strlit("Ask what was replaced and whether the pack is an OEM part. Third-party packs vary a lot in quality.");
}

proof fn degradation_findings_are_justified(h: BatteryHistoryView)
    ensures
        all_justified(degradation_findings(h)),
{
    reveal_strlit("battery.degradation");
    reveal_strlit("Battery capacity is falling quickly");
    reveal_strlit("about -");
    reveal_strlit("% of design capacity lost per year");
    reveal_strlit("a gentler decline, typically under 10% per year");
    reveal_strlit("Least-squares fit over ");
    reveal_strlit(" days of Windows capacity history");
    reveal_strlit("A pack degrading this fast will need replacing sooner than its current health suggests.");
}

proof fn channel_findings_are_justified(mem: MemoryReportView)
    ensures
        all_justified(channel_findings(mem)),
{
    reveal_strlit("memory.single_channel");
    reveal_strlit("Memory is running in single channel");
    reveal_strlit(" of ");
    reveal_strlit(" slots populated, all on one channel");
    reveal_strlit("modules split across two channels");
    reveal_strlit("Slot naming in the SMBIOS memory device table");
    reveal_strlit("Real-world performance is meaningfully below what this hardware can do. Adding a matched module is usually cheap.");
    reveal_strlit("memory.asymmetric");
    reveal_strlit("Memory modules do not match");
    reveal_strlit("populated modules differ in size, speed or part number");
    reveal_strlit("identical modules");
    reveal_strlit("SMBIOS memory device entries");
    reveal_strlit("Only part of the memory runs in dual channel. Worth knowing, not worth walking away over.");
}

proof fn speed_findings_are_justified(mem: MemoryReportView)
    ensures
        all_justified(speed_findings(mem)),
{
    reveal_strlit("memory.below_rated");
    reveal_strlit("Memory is running below its rated speed");
    reveal_strlit("configured speed is below the modules' own rated speed");
    reveal_strlit("modules running at their rated speed");
    reveal_strlit("SMBIOS rated speed against configured speed");
    reveal_strlit("Usually just XMP/EXPO left disabled in firmware, which is a free fix rather than a fault.");
}

proof fn soldered_findings_are_justified(mem: MemoryReportView)
    ensures
        all_justified(soldered_findings(mem)),
{
    reveal_strlit("memory.soldered");
    reveal_strlit("Memory is soldered and cannot be upgraded");
    reveal_strlit(" MB, all soldered to the board");
    reveal_strlit("socketed modules, if you intend to upgrade");
    reveal_strlit("SMBIOS form factor 0x0F (row of chips)");
    reveal_strlit("The memory this machine has is the memory it will always have. Judge the price on that basis.");
}

proof fn firmware_findings_are_justified(fw: FirmwareReportView)
    ensures
        all_justified(firmware_findings(fw)),
{
    reveal_strlit("firmware.absolute");
    reveal_strlit("Absolute/Computrace anti-theft tracking is installed");
    reveal_strlit("found ");
    reveal_strlit("no corporate anti-theft agent");
    reveal_strlit("Absolute agent executables present on disk");
    reveal_strlit("A previous owner's IT department may be able to lock or wipe this machine remotely, and reinstalling Windows does not remove it. Do not buy until the seller proves it is deactivated.");
    reveal_strlit("firmware.wpbt");
    reveal_strlit("Firmware injects an executable at every boot");
    reveal_strlit("a WPBT table is present in ACPI");
    reveal_strlit("no firmware-injected executable, or a known OEM one");
    reveal_strlit("Windows Platform Binary Table in the live ACPI table list");
    reveal_strlit("Often a benign OEM driver installer, but it is also how anti-theft tracking persists across a disk wipe. Worth identifying before you buy.");
}

proof fn gpu_findings_are_justified(gpus: Seq<GpuReportView>)
    ensures
        all_justified(gpu_findings(gpus)),
{
    reveal_strlit("gpu.software_only");
    reveal_strlit("No hardware graphics adapter is active");
    reveal_strlit("only a software renderer was enumerated");
    reveal_strlit("at least one hardware adapter");
    reveal_strlit("DXGI adapter enumeration");
    reveal_strlit("Either the GPU driver is not installed or the adapter has failed. Find out which before buying.");
}

proof fn crash_findings_are_justified(c: CrashHistoryView)
    ensures
        all_justified(crash_findings(c)),
{
    reveal_strlit("crashes.recent");
    reveal_strlit("The machine has been crashing recently");
    reveal_strlit(" blue screens in the last 30 days (");
    reveal_strlit(" recorded in total)");
    reveal_strlit("no recent bugchecks");
    reveal_strlit("Crash dump files in C:\\Windows\\Minidump");
    reveal_strlit("A ten-minute inspection will not reproduce this. Ask the seller directly what the crashes were.");
}

proof fn hardware_error_findings_are_justified(c: CrashHistoryView)
    ensures
        all_justified(hardware_error_findings(c)),
{
    reveal_strlit("crashes.whea");
    reveal_strlit("Windows has logged hardware errors");
    reveal_strlit(" error-level WHEA events");
    reveal_strlit("none");
    reveal_strlit("Microsoft-Windows-WHEA-Logger events in the System log");
    reveal_strlit("These indicate genuine hardware faults in the CPU, memory or PCIe devices, not software problems.");
}

proof fn power_loss_findings_are_justified(c: CrashHistoryView)
    ensures
        all_justified(power_loss_findings(c)),
{
    reveal_strlit("crashes.power");
    reveal_strlit("The machine loses power without shutting down cleanly");
    reveal_strlit(" unexpected shutdowns recorded");
    reveal_strlit("a handful at most");
    reveal_strlit("Kernel-Power event 41 in the System log");
    reveal_strlit("Can be an unreliable mains supply rather than the machine, but on a laptop it may point at a failing battery or overheating. Ask.");
}

proof fn drives_findings_are_justified(drives: Seq<DriveReportView>)
    ensures
        all_justified(drives_findings(drives)),
    decreases drives.len(),
{
    if drives.len() > 0 {
        drives_findings_are_justified(drives.drop_last());
        drive_findings_are_justified(drives.last());
    }
}

proof fn drive_findings_are_justified(d: DriveReportView)
    ensures
        all_justified(drive_findings(d)),
{
    let label = crate::analysis::findings::drive_label(d);
    match d.health.get() {
        Some(DriveHealthView::Ata(a)) => {
            pending_findings_are_justified(label, d.index, a.pending_sectors);
            uncorrectable_findings_are_justified(label, d.index, a.uncorrectable_sectors);
            reallocated_findings_are_justified(label, d.index, a.reallocated_sectors);
            life_findings_are_justified(label, d.index, a.life_remaining_percent);
            age_findings_are_justified(label, d.index, a.power_on_hours);
        },
        Some(DriveHealthView::Nvme(n)) => {
            critical_warning_findings_are_justified(label, d.index, n.critical_warning);
            endurance_findings_are_justified(label, d.index, n.percentage_used);
            spare_findings_are_justified(
                label,
                d.index,
                n.available_spare_percent,
                n.available_spare_threshold_percent,
            );
            media_error_findings_are_justified(label, d.index, n.media_errors);
            age_findings_are_justified(label, d.index, n.power_on_hours);
        },
        None => {},
    }
}

proof fn packs_findings_are_justified(packs: Seq<BatteryReportView>)
    ensures
        all_justified(packs_findings(packs)),
    decreases packs.len(),
{
    if packs.len() > 0 {
        packs_findings_are_justified(packs.drop_last());
        pack_findings_are_justified((packs.len() - 1) as nat, packs.last());
    }
}

/// Every finding on storage can justify itself.
pub proof fn storage_findings_justify_themselves(drives: Seq<DriveReportView>)
    ensures
        all_justified(storage_report(drives)),
{
    drives_findings_are_justified(drives);
    ordering_keeps_justification(drives_findings(drives));
}

/// Every finding on the batteries can justify itself.
pub proof fn battery_findings_justify_themselves(
    batteries: ReadingView<Seq<BatteryReportView>>,
    history: ReadingView<BatteryHistoryView>,
)
    ensures
        all_justified(battery_report(batteries, history)),
{
    if let Some(packs) = batteries.get() {
        packs_findings_are_justified(packs);
    }
    if let Some(h) = history.get() {
        swap_findings_are_justified(h);
        degradation_findings_are_justified(h);
    }
    ordering_keeps_justification(battery_findings(batteries, history));
}

/// Every finding of a full evaluation can justify itself.
pub proof fn every_finding_can_justify_itself(inv: InventoryView)
    ensures
        all_justified(worst_first(component_findings(inv))),
{
    storage_findings_justify_themselves(inv.drives);
    battery_findings_justify_themselves(inv.batteries, inv.battery_history);
    let mem = inv.memory;
    channel_findings_are_justified(mem);
    speed_findings_are_justified(mem);
    soldered_findings_are_justified(mem);
    ordering_keeps_justification(
        channel_findings(mem) + speed_findings(mem) + soldered_findings(mem),
    );
    firmware_findings_are_justified(inv.firmware);
    ordering_keeps_justification(firmware_findings(inv.firmware));
    let c = inv.crashes;
    crash_findings_are_justified(c);
    hardware_error_findings_are_justified(c);
    power_loss_findings_are_justified(c);
    ordering_keeps_justification(
        crash_findings(c) + hardware_error_findings(c) + power_loss_findings(c),
    );
    if let Some(gpus) = inv.gpus.get() {
        gpu_findings_are_justified(gpus);
        ordering_keeps_justification(gpu_findings(gpus));
    }
    assert(all_justified(memory_report(mem)));
    assert(all_justified(firmware_report(inv.firmware)));
    assert(all_justified(stability_report(c)));
    ordering_keeps_justification(component_findings(inv));
}

/// No finding of this report is worse than `severity`.
pub open spec fn none_worse_than(s: Seq<FindingView>, severity: Severity) -> bool {
    forall|i: int| 0 <= i < s.len() ==> (#[trigger] s[i]).severity.level() <= severity.level()
}

/// Age alone is not a fault: it is never worse than worth watching.
pub proof fn age_alone_is_not_a_fault(label: Seq<char>, index: u32, hours: ReadingView<u64>)
    ensures
        none_worse_than(age_findings(label, index, hours), Severity::Watch),
{
}

/// A drive that counts no bad sector, has endurance left and is less than five years old
/// raises no defect.
pub proof fn a_clean_ata_drive_raises_no_defect(label: Seq<char>, index: u32, a: AtaHealthView)
    requires
        a.pending_sectors.get() matches Some(n) ==> n == 0,
        a.uncorrectable_sectors.get() matches Some(n) ==> n == 0,
        a.reallocated_sectors.get() matches Some(n) ==> n == 0,
        a.life_remaining_percent.get() matches Some(n) ==> n >= 20,
        a.power_on_hours.get() matches Some(n) ==> n < 5 * HOURS_PER_YEAR,
    ensures
        none_worse_than(ata_findings(label, index, a), Severity::Fine),
{
}

/// A drive whose controller warns of nothing, that has endurance and spare blocks left, has
/// returned its data and is less than five years old raises no defect.
pub proof fn a_clean_nvme_drive_raises_no_defect(label: Seq<char>, index: u32, n: NvmeHealthView)
    requires
        n.critical_warning == 0,
        n.percentage_used.get() matches Some(used) ==> used < 80,
        n.available_spare_percent.get() matches Some(spare) ==> (
        n.available_spare_threshold_percent.get() matches Some(t) ==> spare >= t),
        n.media_errors.get() matches Some(errors) ==> errors == 0,
        n.power_on_hours.get() matches Some(hours) ==> hours < 5 * HOURS_PER_YEAR,
    ensures
        none_worse_than(nvme_findings(label, index, n), Severity::Fine),
{
}

/// Any sector that waits for reallocation makes the report a problem.
pub proof fn pending_sectors_are_a_problem(drives: Seq<DriveReportView>, i: int)
    requires
        0 <= i < drives.len(),
        drives[i].health.get() matches Some(DriveHealthView::Ata(a)) && (
        a.pending_sectors.get() matches Some(n) && n > 0),
    ensures
        exists|j: int|
            0 <= j < storage_report(drives).len() && (#[trigger] storage_report(drives)[j]).severity
                == Severity::Problem,
    decreases drives.len(),
{
    problem_drive_is_listed(drives, i);
    let s = drives_findings(drives);
    let j = choose|j: int| 0 <= j < s.len() && (#[trigger] s[j]).severity == Severity::Problem;
    problem_is_picked(s, j);
    let c = of_severity(s, Severity::Critical);
    let p = of_severity(s, Severity::Problem);
    picked_findings_fit(s, Severity::Problem);
    assert(storage_report(drives)[c.len() as int] == p[0]);
}

proof fn problem_drive_is_listed(drives: Seq<DriveReportView>, i: int)
    requires
        0 <= i < drives.len(),
        drives[i].health.get() matches Some(DriveHealthView::Ata(a)) && (
        a.pending_sectors.get() matches Some(n) && n > 0),
    ensures
        exists|j: int|
            0 <= j < drives_findings(drives).len() && (#[trigger] drives_findings(drives)[j]).severity
                == Severity::Problem,
    decreases drives.len(),
{
    let rest = drives_findings(drives.drop_last());
    if i == drives.len() - 1 {
        assert(drives_findings(drives)[rest.len() as int].severity == Severity::Problem);
    } else {
        problem_drive_is_listed(drives.drop_last(), i);
        let j = choose|j: int|
            0 <= j < rest.len() && (#[trigger] rest[j]).severity == Severity::Problem;
        assert(drives_findings(drives)[j] == rest[j]);
    }
}

proof fn problem_is_picked(s: Seq<FindingView>, j: int)
    requires
        0 <= j < s.len(),
        s[j].severity == Severity::Problem,
    ensures
        of_severity(s, Severity::Problem).len() > 0,
    decreases s.len(),
{
    if j > 0 {
        problem_is_picked(s.drop_first(), j - 1);
    }
}

/// A drive whose health could not be read raises nothing: no rule judges a missing value.
pub proof fn an_unreadable_drive_raises_nothing(d: DriveReportView)
    requires
        d.health.get() is None,
    ensures
        drive_findings(d).len() == 0,
{
}

/// Drives are judged one by one: the findings on two lists of drives are those on the first
/// and then those on the second.
pub proof fn drives_are_judged_one_by_one(a: Seq<DriveReportView>, b: Seq<DriveReportView>)
    ensures
        drives_findings(a + b) == drives_findings(a) + drives_findings(b),
    decreases b.len(),
{
    if b.len() == 0 {
        assert(a + b == a);
        assert(drives_findings(a + b) == drives_findings(a) + drives_findings(b));
    } else {
        drives_are_judged_one_by_one(a, b.drop_last());
        assert((a + b).drop_last() == a + b.drop_last());
        assert(drives_findings(a + b) == drives_findings(a) + drives_findings(b));
    }
}

} // verus!
