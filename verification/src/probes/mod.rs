//! Read-only inventory probes: each decodes what one part of the machine reports.
//!
//! Everything in this module is safe to run on a machine you do not own: no writes, no
//! configuration changes, no sustained load.
use vstd::prelude::*;

use crate::model::{Reading, ReadingView, Unavailable, UnavailableView};
use crate::win::{error_text, WinError};

pub mod adl;
pub mod ata_smart;
pub mod battery;
pub mod battery_history;
pub mod cpu;
pub mod crashes;
pub mod firmware;
pub mod gpu;
pub mod gpu_d3d12;
pub mod memory;
pub mod nvml;
pub mod storage;

verus! {

/// The complete read-only picture of a machine.
#[derive(Debug, Clone)]
pub struct Inventory {
    pub firmware: firmware::FirmwareReport,
    pub cpu: cpu::CpuTopology,
    pub batteries: Reading<Vec<battery::BatteryReport>>,
    pub battery_history: Reading<battery_history::BatteryHistory>,
    pub memory: memory::MemoryReport,
    pub drives: Vec<storage::DriveReport>,
    pub gpus: Reading<Vec<gpu::GpuReport>>,
    pub crashes: crashes::CrashHistory,
    pub elevated: bool,
    pub collected_at: String,
}

/// The mathematical model of [`Inventory`].
#[verifier::ext_equal]
pub struct InventoryView {
    pub firmware: firmware::FirmwareReportView,
    pub cpu: cpu::CpuTopologyView,
    pub batteries: ReadingView<Seq<battery::BatteryReportView>>,
    pub battery_history: ReadingView<battery_history::BatteryHistoryView>,
    pub memory: memory::MemoryReportView,
    pub drives: Seq<storage::DriveReportView>,
    pub gpus: ReadingView<Seq<gpu::GpuReportView>>,
    pub crashes: crashes::CrashHistoryView,
    pub elevated: bool,
    pub collected_at: Seq<char>,
}

impl DeepView for Inventory {
    type V = InventoryView;

    open spec fn deep_view(&self) -> InventoryView {
        InventoryView {
            firmware: self.firmware.deep_view(),
            cpu: self.cpu.deep_view(),
            batteries: self.batteries.deep_view(),
            battery_history: self.battery_history.deep_view(),
            memory: self.memory.deep_view(),
            drives: self.drives.deep_view(),
            gpus: self.gpus.deep_view(),
            crashes: self.crashes.deep_view(),
            elevated: self.elevated,
            collected_at: self.collected_at@,
        }
    }
}

/// The chassis is one that is meant to run on a battery.
pub open spec fn portable(f: firmware::FormFactor) -> bool {
    f == firmware::FormFactor::Laptop || f == firmware::FormFactor::Tablet
}

/// The packs of a machine. A desktop that has no battery is expected, not a failure; a
/// portable that reports no battery is itself worth surfacing.
pub fn battery_reading(
    packs: Result<Vec<battery::BatteryReport>, WinError>,
    form_factor: firmware::FormFactor,
) -> (r: Reading<Vec<battery::BatteryReport>>)
    ensures
        match packs {
            Ok(list) => if list@.len() > 0 {
                r.holds(list)
            } else if !portable(form_factor) {
                r.lacks(UnavailableView::NotApplicable)
            } else {
                r.lacks(
                    UnavailableView::QueryFailed(
                        "portable chassis reports no battery — pack removed or failed"@,
                    ),
                )
            },
            Err(e) => r.lacks(UnavailableView::QueryFailed(error_text(e.context@, e.code))),
        },
{
    match packs {
        Ok(list) => {
            if list.len() > 0 {
                Reading::value(list)
            } else {
                match form_factor {
                    firmware::FormFactor::Laptop | firmware::FormFactor::Tablet => Reading::failed(
                        String::from_str(
                            "portable chassis reports no battery — pack removed or failed",
                        ),
                    ),
                    _ => Reading::missing(Unavailable::NotApplicable),
                }
            }
        },
        Err(e) => Reading::failed(e.describe()),
    }
}

/// What the operating system hands out about a machine in one pass.
pub struct MachineFacts {
    /// The SMBIOS table.
    pub smbios: Result<Vec<u8>, WinError>,
    pub persistence: firmware::FirmwarePersistence,
    pub packs: Result<Vec<battery::BatteryReport>, WinError>,
    pub cpu: cpu::CpuFacts,
    pub drives: Vec<storage::DriveReport>,
    pub gpus: Result<Vec<gpu::GpuReport>, WinError>,
    pub crashes: crashes::CrashHistory,
    pub elevated: bool,
    pub collected_at: String,
}

/// The structures of an SMBIOS table: none where it could not be read.
pub open spec fn table_structures(table: Result<Vec<u8>, WinError>) -> Seq<firmware::SmbiosView> {
    match table {
        Ok(raw) => firmware::smbios_structures(raw@),
        Err(_) => seq![],
    }
}

/// The version of an SMBIOS table: none where it could not be read.
pub open spec fn table_version(table: Result<Vec<u8>, WinError>) -> Option<Seq<char>> {
    match table {
        Ok(raw) => firmware::version_text(raw@),
        Err(_) => None,
    }
}

/// The picture of a machine up to its battery history, which is only worth asking for when
/// there is a pack to have one.
pub struct Survey {
    pub firmware: firmware::FirmwareReport,
    pub cpu: cpu::CpuTopology,
    pub batteries: Reading<Vec<battery::BatteryReport>>,
    pub memory: memory::MemoryReport,
    pub drives: Vec<storage::DriveReport>,
    pub gpus: Reading<Vec<gpu::GpuReport>>,
    pub crashes: crashes::CrashHistory,
    pub elevated: bool,
    pub collected_at: String,
}

/// Decode what the operating system handed out. One firmware read feeds both the identity
/// report and the memory decode.
pub fn survey(facts: MachineFacts) -> (s: Survey)
    requires
        facts.cpu.core_records matches Some(buf) ==> buf@.len() <= u32::MAX,
    ensures
        s.firmware.deep_view().identity == firmware::identity_of(
            table_structures(facts.smbios),
            table_version(facts.smbios),
        ),
        s.firmware.persistence == facts.persistence,
        s.cpu.deep_view() == cpu::topology_of(facts.cpu),
        s.memory.deep_view() == memory::memory_report(table_structures(facts.smbios)),
        match facts.packs {
            Ok(list) => if list@.len() > 0 {
                s.batteries.holds(list)
            } else if !portable(s.firmware.identity.form_factor) {
                s.batteries.lacks(UnavailableView::NotApplicable)
            } else {
                s.batteries.lacks(
                    UnavailableView::QueryFailed(
                        "portable chassis reports no battery — pack removed or failed"@,
                    ),
                )
            },
            Err(e) => s.batteries.lacks(
                UnavailableView::QueryFailed(error_text(e.context@, e.code)),
            ),
        },
        s.drives == facts.drives,
        match facts.gpus {
            Ok(list) => s.gpus.holds(list),
            Err(e) => s.gpus.lacks(UnavailableView::QueryFailed(error_text(e.context@, e.code))),
        },
        s.crashes == facts.crashes,
        s.elevated == facts.elevated,
        s.collected_at == facts.collected_at,
{
    let (structs, version) = firmware::read_smbios(&facts.smbios);
    assert(structs.deep_view() == table_structures(facts.smbios));
    let all = structs.as_slice();
    assert(all.deep_view() == structs.deep_view());
    let memory = memory::from_smbios(all);
    let identity = firmware::build_identity(all, version);
    let batteries = battery_reading(facts.packs, identity.form_factor);
    Survey {
        firmware: firmware::FirmwareReport { identity, persistence: facts.persistence },
        cpu: cpu::probe(&facts.cpu),
        batteries,
        memory,
        drives: facts.drives,
        gpus: match facts.gpus {
            Ok(list) => Reading::value(list),
            Err(e) => Reading::failed(e.describe()),
        },
        crashes: facts.crashes,
        elevated: facts.elevated,
        collected_at: facts.collected_at,
    }
}

impl Survey {
    /// Whether the battery report is worth asking for.
    pub fn wants_battery_history(&self) -> (b: bool)
        ensures
            b == (self.batteries is Value),
    {
        self.batteries.is_ok()
    }
}

/// The battery history of a machine with these packs, where `report` is the text of the
/// battery report or the error that kept it from being read.
pub open spec fn history_reading(
    batteries: ReadingView<Seq<battery::BatteryReportView>>,
    report: Result<String, String>,
) -> ReadingView<battery_history::BatteryHistoryView> {
    if batteries.get() is None {
        ReadingView::missing(UnavailableView::NotApplicable)
    } else {
        match report {
            Ok(xml) => battery_history::reading_of(
                match battery_history::xml_nodes(xml@) {
                    Some(nodes) => Some(battery_history::history_in(nodes)),
                    None => None,
                },
            ),
            Err(e) => ReadingView::failed(e@),
        }
    }
}

/// Complete the picture of a machine. `report` is the text of the battery report, or the
/// error that kept it from being read; it is looked at only when there is a pack.
pub fn collect(s: Survey, report: Result<String, String>) -> (inv: Inventory)
    ensures
        inv.deep_view() == (InventoryView {
            firmware: s.firmware.deep_view(),
            cpu: s.cpu.deep_view(),
            batteries: s.batteries.deep_view(),
            battery_history: history_reading(s.batteries.deep_view(), report),
            memory: s.memory.deep_view(),
            drives: s.drives.deep_view(),
            gpus: s.gpus.deep_view(),
            crashes: s.crashes.deep_view(),
            elevated: s.elevated,
            collected_at: s.collected_at@,
        }),
{
    let battery_history = if s.batteries.is_ok() {
        battery_history::probe(report)
    } else {
        Reading::missing(Unavailable::NotApplicable)
    };
    Inventory {
        firmware: s.firmware,
        cpu: s.cpu,
        batteries: s.batteries,
        battery_history,
        memory: s.memory,
        drives: s.drives,
        gpus: s.gpus,
        crashes: s.crashes,
        elevated: s.elevated,
        collected_at: s.collected_at,
    }
}

/// A battery belongs to laptops and tablets, and to no other form factor.
pub proof fn laptops_and_tablets_are_portable(f: firmware::FormFactor)
    ensures
        portable(f) <==> f != firmware::FormFactor::Desktop && f != firmware::FormFactor::AllInOne
            && f != firmware::FormFactor::Server && f != firmware::FormFactor::Unknown,
{
}

/// A history is looked at only where there are packs, whatever the report says; with packs, a
/// report that could not be read is a failure with its own text, and one that could is decoded.
pub proof fn a_history_needs_a_battery(
    batteries: ReadingView<Seq<battery::BatteryReportView>>,
    report: Result<String, String>,
)
    ensures
        ({
            let h = history_reading(batteries, report);
            &&& batteries is Missing ==> (h matches ReadingView::Missing { reason, .. } && reason
                == UnavailableView::NotApplicable)
            &&& batteries is Value ==> match report {
                Err(e) => h matches ReadingView::Missing { reason, .. } && reason
                    == UnavailableView::QueryFailed(e@),
                Ok(xml) => h == battery_history::reading_of(
                    match battery_history::xml_nodes(xml@) {
                        Some(nodes) => Some(battery_history::history_in(nodes)),
                        None => None,
                    },
                ),
            }
        }),
{
}

/// What an SMBIOS table that could not be read tells: no structures and no version.
pub proof fn an_unreadable_table_tells_nothing(table: Result<Vec<u8>, WinError>)
    ensures
        table is Err ==> table_structures(table).len() == 0 && table_version(table) is None,
        table matches Ok(raw) ==> table_structures(table) == firmware::smbios_structures(raw@)
            && table_version(table) == firmware::version_text(raw@),
{
}

/// A machine with packs shows them. Without any, it goes by the chassis: on one that is meant to
/// run on a battery that is a failure, and on any other it does not apply.
pub proof fn a_portable_without_a_battery_is_worth_surfacing(
    packs: Result<Vec<battery::BatteryReport>, WinError>,
    form_factor: firmware::FormFactor,
    r: Reading<Vec<battery::BatteryReport>>,
)
    requires
        call_ensures(battery_reading, (packs, form_factor), r),
    ensures
        r is Value <==> (packs matches Ok(list) && list@.len() > 0),
        packs matches Ok(list) ==> list@.len() > 0 ==> r == (Reading::Value {
            ok: true,
            value: list,
        }),
        packs matches Ok(list) ==> list@.len() == 0 ==> (r->reason is NotApplicable <==> form_factor
            != firmware::FormFactor::Laptop && form_factor != firmware::FormFactor::Tablet),
        packs matches Ok(list) ==> list@.len() == 0 ==> (r->reason is QueryFailed <==> form_factor
            == firmware::FormFactor::Laptop || form_factor == firmware::FormFactor::Tablet),
        packs is Err ==> r->reason is QueryFailed,
{
}

} // verus!
