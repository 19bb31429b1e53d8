//! Scanning one component: what was measured, and what it means.
//!
//! Every component is scannable on its own, so a buyer can check just the battery, or just
//! the drive, without waiting for a full sweep. The time of a scan is handed in.
use vstd::prelude::*;

use crate::analysis::findings;
use crate::analysis::order::worst_first;
use crate::analysis::stress_findings::{
    cpu_findings, evaluate_cpu, evaluate_gpu, gpu_stress_findings, spec_for, CpuSpec,
};
use crate::model::{Finding, FindingView, Reading, Unavailable, UnavailableView};
use crate::probes::battery::BatteryReport;
use crate::probes::battery_history::{self, BatteryHistory};
use crate::probes::cpu::CpuTopology;
use crate::probes::crashes::CrashHistory;
use crate::probes::firmware::{read_smbios, FirmwareReport};
use crate::probes::gpu::{find_hardware, first_hardware, GpuReport};
use crate::probes::memory::{from_smbios, memory_report, MemoryReport};
use crate::probes::storage::DriveReport;
use crate::probes::{history_reading, table_structures};
use crate::telemetry::types::{CpuStressResult, GpuStressResult};
use crate::win::{error_text, WinError};

verus! {

/// The result of scanning one component.
#[derive(Debug, Clone)]
pub struct ComponentScan<T> {
    pub data: T,
    pub findings: Vec<Finding>,
    pub scanned_at: String,
}

impl<T> ComponentScan<T> {
    /// The scan holds this data, what follows from it, and the time at which it was taken.
    pub open spec fn is_scan(self, data: T, found: Seq<FindingView>, at: Seq<char>) -> bool {
        &&& self.data == data
        &&& self.findings.deep_view() == found
        &&& self.scanned_at@ == at
    }

    /// A scan that was taken at the time `scanned_at`.
    pub fn new(data: T, findings: Vec<Finding>, scanned_at: String) -> (s: Self)
        ensures
            s.is_scan(data, findings.deep_view(), scanned_at@),
    {
        ComponentScan { data, findings, scanned_at }
    }
}

/// Machine identity and firmware-persistence checks.
pub fn scan_firmware(report: FirmwareReport, at: String) -> (s: ComponentScan<FirmwareReport>)
    ensures
        s.is_scan(report, findings::firmware_report(report.deep_view()), at@),
{
    let found = findings::firmware(&report);
    ComponentScan::new(report, found, at)
}

/// Battery registers plus the capacity-degradation history.
#[derive(Debug, Clone)]
pub struct BatteryScanData {
    pub packs: Reading<Vec<BatteryReport>>,
    pub history: Reading<BatteryHistory>,
}

/// The packs of a machine, whatever its chassis: having none is not a failure.
pub fn pack_reading(packs: Result<Vec<BatteryReport>, WinError>) -> (r: Reading<Vec<BatteryReport>>)
    ensures
        match packs {
            Ok(list) => if list@.len() > 0 {
                r.holds(list)
            } else {
                r.lacks(UnavailableView::NotApplicable)
            },
            Err(e) => r.lacks(UnavailableView::QueryFailed(error_text(e.context@, e.code))),
        },
{
    match packs {
        Ok(list) => if list.len() > 0 {
            Reading::value(list)
        } else {
            Reading::missing(Unavailable::NotApplicable)
        },
        Err(e) => Reading::failed(e.describe()),
    }
}

/// Judge the packs and their history. `report` is the text of the battery report, or the
/// error that kept it from being read; it is looked at only when there is a pack.
pub fn scan_battery(packs: Reading<Vec<BatteryReport>>, report: Result<String, String>, at: String) -> (s:
    ComponentScan<BatteryScanData>)
    requires
        packs.deep_view().get() matches Some(list) ==> findings::packs_wf(list),
    ensures
        s.data.packs == packs,
        s.data.history.deep_view() == history_reading(packs.deep_view(), report),
        s.findings.deep_view() == findings::battery_report(
            packs.deep_view(),
            history_reading(packs.deep_view(), report),
        ),
        s.scanned_at@ == at@,
{
    let history = if packs.is_ok() {
        battery_history::probe(report)
    } else {
        Reading::missing(Unavailable::NotApplicable)
    };
    assert(history.deep_view() == history_reading(packs.deep_view(), report));
    let found = findings::battery(&packs, &history);
    ComponentScan::new(BatteryScanData { packs, history }, found, at)
}

/// Drive health.
pub fn scan_storage(drives: Vec<DriveReport>, at: String) -> (s: ComponentScan<Vec<DriveReport>>)
    ensures
        s.is_scan(drives, findings::storage_report(drives.deep_view()), at@),
{
    let all = drives.as_slice();
    assert(all.deep_view() == drives.deep_view());
    let found = findings::storage(all);
    ComponentScan::new(drives, found, at)
}

/// Memory configuration, from the SMBIOS table. This is not a pattern test.
pub fn scan_memory(table: &Result<Vec<u8>, WinError>, at: String) -> (s: ComponentScan<MemoryReport>)
    ensures
        s.data.deep_view() == memory_report(table_structures(*table)),
        s.findings.deep_view() == findings::memory_report(memory_report(table_structures(*table))),
        s.scanned_at@ == at@,
{
    let (structs, _) = read_smbios(table);
    assert(structs.deep_view() == table_structures(*table));
    let all = structs.as_slice();
    assert(all.deep_view() == structs.deep_view());
    let report = from_smbios(all);
    let found = findings::memory(&report);
    ComponentScan::new(report, found, at)
}

/// Display adapter identity. Adapters that could not be enumerated raise no finding.
pub fn scan_gpu(gpus: Result<Vec<GpuReport>, WinError>, at: String) -> (s: ComponentScan<
    Reading<Vec<GpuReport>>,
>)
    ensures
        match gpus {
            Ok(list) => s.data.holds(list) && s.findings.deep_view() == findings::gpu_report(
                list.deep_view(),
            ),
            Err(e) => s.data.lacks(UnavailableView::QueryFailed(error_text(e.context@, e.code)))
                && s.findings@.len() == 0,
        },
        s.scanned_at@ == at@,
{
    match gpus {
        Ok(list) => {
            let all = list.as_slice();
            assert(all.deep_view() == list.deep_view());
            let found = findings::gpu(all);
            ComponentScan::new(Reading::value(list), found, at)
        },
        Err(e) => {
            let s = ComponentScan::new(Reading::failed(e.describe()), Vec::new(), at);
            assert(s.findings.deep_view().len() == 0);
            s
        },
    }
}

/// Crash and hardware-error history.
pub fn scan_stability(history: CrashHistory, at: String) -> (s: ComponentScan<CrashHistory>)
    ensures
        s.is_scan(history, findings::stability_report(history.deep_view()), at@),
{
    let found = findings::stability(&history);
    ComponentScan::new(history, found, at)
}

/// CPU identity and topology. There is nothing to flag about topology alone.
pub fn scan_cpu(topology: CpuTopology, at: String) -> (s: ComponentScan<CpuTopology>)
    ensures
        s.is_scan(topology, seq![], at@),
{
    let s = ComponentScan::new(topology, Vec::new(), at);
    assert(s.findings.deep_view() == Seq::<FindingView>::empty());
    s
}

/// A finished CPU stress run, judged.
pub fn scan_cpu_stress(
    result: CpuStressResult,
    topology: &CpuTopology,
    specs: &[CpuSpec],
    at: String,
) -> (s: ComponentScan<CpuStressResult>)
    ensures
        s.is_scan(
            result,
            worst_first(
                cpu_findings(
                    result.deep_view(),
                    topology.deep_view(),
                    spec_for(specs.deep_view(), topology.deep_view()),
                ),
            ),
            at@,
        ),
{
    let found = evaluate_cpu(&result, topology, specs);
    ComponentScan::new(result, found, at)
}

/// A finished GPU stress run, judged.
pub fn scan_gpu_stress(result: GpuStressResult, at: String) -> (s: ComponentScan<GpuStressResult>)
    ensures
        s.is_scan(result, worst_first(gpu_stress_findings(result.deep_view())), at@),
{
    let found = evaluate_gpu(&result);
    ComponentScan::new(result, found, at)
}

/// The adapter that a GPU stress run is for: the first one that is real hardware.
pub fn stress_target(gpus: &Result<Vec<GpuReport>, WinError>) -> (r: Result<usize, String>)
    ensures
        match *gpus {
            Err(e) => r matches Err(text) && text@ == error_text(e.context@, e.code),
            Ok(list) => match first_hardware(list.deep_view()) {
                Some(i) => r matches Ok(k) && k == i && k < list@.len(),
                None => r matches Err(text) && text@ == "no hardware display adapter was found"@,
            },
        },
{
    match gpus {
        Err(e) => Err(e.describe()),
        Ok(list) => {
            let all = list.as_slice();
            assert(all.deep_view() == list.deep_view());
            match find_hardware(all) {
                Some(i) => Ok(i),
                None => Err(String::from_str("no hardware display adapter was found")),
            }
        },
    }
}

// ---------------------------------------------------------------------------
// Laws
// ---------------------------------------------------------------------------

/// A scan hands out what it judged, unchanged, with the report on it and the time.
pub proof fn a_scan_holds_what_it_judged(
    drives: Vec<DriveReport>,
    firmware: FirmwareReport,
    history: CrashHistory,
    topology: CpuTopology,
    run: GpuStressResult,
    at: String,
    a: ComponentScan<Vec<DriveReport>>,
    b: ComponentScan<FirmwareReport>,
    c: ComponentScan<CrashHistory>,
    d: ComponentScan<CpuTopology>,
    e: ComponentScan<GpuStressResult>,
)
    requires
        call_ensures(scan_storage, (drives, at), a),
        call_ensures(scan_firmware, (firmware, at), b),
        call_ensures(scan_stability, (history, at), c),
        call_ensures(scan_cpu, (topology, at), d),
        call_ensures(scan_gpu_stress, (run, at), e),
    ensures
        a.data == drives && a.findings.deep_view() == findings::storage_report(drives.deep_view()),
        b.data == firmware && b.findings.deep_view() == findings::firmware_report(
            firmware.deep_view(),
        ),
        c.data == history && c.findings.deep_view() == findings::stability_report(
            history.deep_view(),
        ),
        d.data == topology && d.findings.deep_view().len() == 0,
        e.data == run && e.findings.deep_view() == worst_first(gpu_stress_findings(run.deep_view())),
        a.scanned_at@ == at@ && b.scanned_at@ == at@ && c.scanned_at@ == at@ && d.scanned_at@ == at@
            && e.scanned_at@ == at@,
{
}

/// Adapters that were enumerated are shown and judged; where they could not be, the scan says
/// why and raises nothing.
pub proof fn adapters_are_judged_where_they_are_known(
    gpus: Result<Vec<GpuReport>, WinError>,
    at: String,
    s: ComponentScan<Reading<Vec<GpuReport>>>,
)
    requires
        call_ensures(scan_gpu, (gpus, at), s),
    ensures
        s.data is Value <==> gpus is Ok,
        gpus matches Ok(list) ==> s.findings.deep_view() == findings::gpu_report(list.deep_view()),
        gpus matches Ok(list) ==> s.data == (Reading::Value { ok: true, value: list }),
        gpus is Err ==> s.findings@.len() == 0,
        s.scanned_at@ == at@,
{
}

/// A machine with a pack shows its packs, one without shows that they do not apply, and a failed
/// query shows its error.
pub proof fn packs_are_shown_where_there_are_any(
    packs: Result<Vec<BatteryReport>, WinError>,
    r: Reading<Vec<BatteryReport>>,
)
    requires
        call_ensures(pack_reading, (packs,), r),
    ensures
        r is Value <==> (packs matches Ok(list) && list@.len() > 0),
        r matches Reading::Value { ok, value } ==> ok && packs == Ok::<
            Vec<BatteryReport>,
            WinError,
        >(value),
        packs is Ok && r is Missing ==> r->reason is NotApplicable,
        packs is Err ==> r->reason is QueryFailed,
{
}

/// A GPU run is for a real adapter: one that is no software renderer, behind none but software
/// renderers. Without one there is no run.
pub proof fn a_run_is_for_the_first_real_adapter(
    gpus: Result<Vec<GpuReport>, WinError>,
    r: Result<usize, String>,
)
    requires
        call_ensures(stress_target, (&gpus,), r),
    ensures
        r matches Ok(k) ==> (gpus matches Ok(list) && k < list@.len() && !list@[k as int].is_software
            && forall|j: int| 0 <= j < k ==> (#[trigger] list@[j]).is_software),
        r is Err ==> (gpus is Err || (gpus matches Ok(list) && forall|j: int|
            0 <= j < list@.len() ==> (#[trigger] list@[j]).is_software)),
{
    if let Ok(list) = gpus {
        let all = list.deep_view();
        crate::probes::gpu::the_first_hardware_adapter_is_first(all);
        assert forall|j: int| 0 <= j < list@.len() implies all[j].is_software
            == #[trigger] list@[j].is_software by {}
    }
}

} // verus!
