//! Display adapter identity, with driver details from the display class registry.
//!
//! Adapter memory is a 64-bit value here. The 32-bit figure that is common elsewhere
//! saturates at 4095 MB, and a buyer being told that a 12 GB card has 4 GB would be a
//! serious error.
use vstd::prelude::*;

use crate::model::{Reading, ReadingView};
use crate::text::number::is_digit;
use crate::text::{
    ascii_lower, chars_of, find, find_text, found_where_it_stands_first, nowhere_in,
    stands_first_at, to_ascii_lower, trim, trimmed,
};
use crate::win::registry::{read_hklm_string, value_text};
use crate::win::wide::{before_nul, utf16_text, wide_to_string};

verus! {

/// The name of a PCI vendor.
pub open spec fn vendor_text(id: u32) -> Seq<char> {
    match id {
        0x10DE => "NVIDIA"@,
        0x1002 => "AMD"@,
        0x1022 => "AMD"@,
        0x8086 => "Intel"@,
        0x1414 => "Microsoft"@,
        0x5143 => "Qualcomm"@,
        _ => "Unknown"@,
    }
}

/// PCI vendor IDs.
pub fn vendor_name(id: u32) -> (r: &'static str)
    ensures
        r@ == vendor_text(id),
{
    match id {
        0x10DE => "NVIDIA",
        0x1002 | 0x1022 => "AMD",
        0x8086 => "Intel",
        0x1414 => "Microsoft",
        0x5143 => "Qualcomm",
        _ => "Unknown",
    }
}

#[derive(Debug, Clone)]
pub struct GpuReport {
    pub name: String,
    pub vendor: String,
    pub vendor_id: u32,
    pub device_id: u32,
    pub subsystem_id: u32,
    pub revision: u32,
    /// True 64-bit dedicated VRAM, in bytes.
    pub dedicated_vram_bytes: u64,
    pub shared_memory_bytes: u64,
    /// A software rasteriser, not real hardware.
    pub is_software: bool,
    /// Whether this adapter drives a display. A laptop's discrete GPU often does not.
    pub has_output: bool,
    pub driver_version: Reading<String>,
    pub driver_date: Reading<String>,
}

/// The mathematical model of [`GpuReport`].
#[verifier::ext_equal]
pub struct GpuReportView {
    pub name: Seq<char>,
    pub vendor: Seq<char>,
    pub vendor_id: u32,
    pub device_id: u32,
    pub subsystem_id: u32,
    pub revision: u32,
    pub dedicated_vram_bytes: u64,
    pub shared_memory_bytes: u64,
    pub is_software: bool,
    pub has_output: bool,
    pub driver_version: ReadingView<Seq<char>>,
    pub driver_date: ReadingView<Seq<char>>,
}

impl DeepView for GpuReport {
    type V = GpuReportView;

    open spec fn deep_view(&self) -> GpuReportView {
        GpuReportView {
            name: self.name@,
            vendor: self.vendor@,
            vendor_id: self.vendor_id,
            device_id: self.device_id,
            subsystem_id: self.subsystem_id,
            revision: self.revision,
            dedicated_vram_bytes: self.dedicated_vram_bytes,
            shared_memory_bytes: self.shared_memory_bytes,
            is_software: self.is_software,
            has_output: self.has_output,
            driver_version: self.driver_version.deep_view(),
            driver_date: self.driver_date.deep_view(),
        }
    }
}

/// What the graphics infrastructure says of an adapter.
#[derive(Debug, Clone)]
pub struct AdapterFacts {
    /// The description, in UTF-16 units.
    pub description: Vec<u16>,
    pub vendor_id: u32,
    pub device_id: u32,
    pub subsystem_id: u32,
    pub revision: u32,
    pub dedicated_video_memory: u64,
    pub shared_system_memory: u64,
    pub flags: u32,
    pub has_output: bool,
}

/// The adapter flag of a software rasteriser.
pub const ADAPTER_FLAG_SOFTWARE: u32 = 2;

/// The driver of an adapter, as the display class registry records it.
#[derive(Debug, Clone)]
pub struct DriverEntry {
    pub vendor_id: u32,
    pub device_id: u32,
    pub version: Option<String>,
    pub date: Option<String>,
}

/// The mathematical model of [`DriverEntry`].
#[verifier::ext_equal]
pub struct DriverEntryView {
    pub vendor_id: u32,
    pub device_id: u32,
    pub version: Option<Seq<char>>,
    pub date: Option<Seq<char>>,
}

impl DeepView for DriverEntry {
    type V = DriverEntryView;

    open spec fn deep_view(&self) -> DriverEntryView {
        DriverEntryView {
            vendor_id: self.vendor_id,
            device_id: self.device_id,
            version: self.version.deep_view(),
            date: self.date.deep_view(),
        }
    }
}

/// The display adapter setup class.
pub const DISPLAY_CLASS_KEY: &'static str =
    "SYSTEM\\CurrentControlSet\\Control\\Class\\{4d36e968-e325-11ce-bfc1-08002be10318}";

/// The registry path of one instance of the display class.
pub fn driver_key(instance: &[u16]) -> (s: String)
    ensures
        s@ == DISPLAY_CLASS_KEY@ + "\\"@ + utf16_text(before_nul(instance@)),
{
    let mut s = String::from_str(DISPLAY_CLASS_KEY);
    s.append("\\");
    s.append(wide_to_string(instance).as_str());
    s
}

/// The entry that the registry values of one instance make; none without a usable device id.
pub open spec fn entry_of(
    matching: Option<Seq<char>>,
    version: Option<Seq<char>>,
    date: Option<Seq<char>>,
) -> Option<DriverEntryView> {
    match matching {
        None => None,
        Some(m) => match device_ids(m) {
            None => None,
            Some((vendor_id, device_id)) => Some(
                DriverEntryView { vendor_id, device_id, version, date },
            ),
        },
    }
}

/// The entry that the registry values of one instance make.
pub fn driver_entry(matching: Option<String>, version: Option<String>, date: Option<String>) -> (r:
    Option<DriverEntry>)
    ensures
        r.deep_view() == entry_of(matching.deep_view(), version.deep_view(), date.deep_view()),
{
    match matching {
        None => None,
        Some(m) => match parse_matching_device_id(m.as_str()) {
            None => None,
            Some((vendor_id, device_id)) => Some(
                DriverEntry { vendor_id, device_id, version, date },
            ),
        },
    }
}

/// How many instances of the display class are looked at, at most.
pub const MAX_DISPLAY_INSTANCES: usize = 64;

/// What the registry holds for one instance of the display class.
#[derive(Debug, Clone)]
pub enum DisplayInstance {
    /// There is no such instance: the class has no more.
    Absent,
    /// The instance is there, but its key does not open.
    Closed,
    /// The bytes of its values `MatchingDeviceId`, `DriverVersion` and `DriverDate`.
    Open { matching: Option<Vec<u8>>, version: Option<Vec<u8>>, date: Option<Vec<u8>> },
}

/// The text of a registry value, where it is recorded.
pub open spec fn recorded(data: Option<Vec<u8>>) -> Option<Seq<char>> {
    match data {
        Some(d) => value_text(d@),
        None => None,
    }
}

/// The driver that an instance records.
pub open spec fn instance_entry(instance: DisplayInstance) -> Option<DriverEntryView> {
    match instance {
        DisplayInstance::Open { matching, version, date } => entry_of(
            recorded(matching),
            recorded(version),
            recorded(date),
        ),
        _ => None,
    }
}

/// The drivers that the instances from number `i` on record, up to the first that is absent.
pub open spec fn drivers_from(instances: Seq<DisplayInstance>, i: int) -> Seq<DriverEntryView>
    decreases instances.len() - i,
{
    if i >= instances.len() || i >= MAX_DISPLAY_INSTANCES || instances[i] is Absent {
        seq![]
    } else {
        (match instance_entry(instances[i]) {
            Some(entry) => seq![entry],
            None => seq![],
        }) + drivers_from(instances, i + 1)
    }
}

/// The drivers that the instances of the display class record, numbered from zero. An
/// instance that does not open, or without a usable device id, is passed over.
pub fn read_display_drivers(instances: &[DisplayInstance]) -> (r: Vec<DriverEntry>)
    ensures
        r.deep_view() == drivers_from(instances@, 0),
{
    let mut entries: Vec<DriverEntry> = Vec::new();
    let mut i: usize = 0;
    assert(entries.deep_view() + drivers_from(instances@, 0) == drivers_from(instances@, 0));
    while i < instances.len() && i < MAX_DISPLAY_INSTANCES
        invariant_except_break
            i <= instances.len(),
            entries.deep_view() + drivers_from(instances@, i as int) == drivers_from(instances@, 0),
        ensures
            entries.deep_view() == drivers_from(instances@, 0),
        decreases instances.len() - i,
    {
        let ghost before = entries.deep_view();
        match &instances[i] {
            DisplayInstance::Absent => {
                assert(before + drivers_from(instances@, i as int) == before);
                break;
            },
            DisplayInstance::Closed => {},
            DisplayInstance::Open { matching, version, date } => {
                match driver_entry(
                    read_hklm_string(matching),
                    read_hklm_string(version),
                    read_hklm_string(date),
                ) {
                    Some(entry) => {
                        let ghost added = entry.deep_view();
                        entries.push(entry);
                        assert(entries.deep_view() == before + seq![added]);
                    },
                    None => {},
                }
            },
        }
        i += 1;
        assert(entries.deep_view() + drivers_from(instances@, i as int) == before + drivers_from(
            instances@,
            i - 1,
        ));
        if i >= instances.len() || i >= MAX_DISPLAY_INSTANCES {
            assert(entries.deep_view() + drivers_from(instances@, i as int) == entries.deep_view());
        }
    }
    entries
}

/// The first driver recorded for an adapter.
pub open spec fn driver_for(drivers: Seq<DriverEntryView>, vendor_id: u32, device_id: u32) -> Option<
    DriverEntryView,
>
    decreases drivers.len(),
{
    if drivers.len() == 0 {
        None
    } else if drivers[0].vendor_id == vendor_id && drivers[0].device_id == device_id {
        Some(drivers[0])
    } else {
        driver_for(drivers.drop_first(), vendor_id, device_id)
    }
}

fn find_driver(drivers: &[DriverEntry], vendor_id: u32, device_id: u32) -> (r: Option<&DriverEntry>)
    ensures
        r.deep_view() == driver_for(drivers.deep_view(), vendor_id, device_id),
{
    let ghost all = drivers.deep_view();
    let mut i: usize = 0;
    assert(all.skip(0) == all);
    while i < drivers.len()
        invariant
            i <= drivers.len(),
            all == drivers.deep_view(),
            driver_for(all, vendor_id, device_id) == driver_for(
                all.skip(i as int),
                vendor_id,
                device_id,
            ),
        decreases drivers.len() - i,
    {
        if drivers[i].vendor_id == vendor_id && drivers[i].device_id == device_id {
            return Some(&drivers[i]);
        }
        assert(all.skip(i as int).drop_first() == all.skip(i + 1));
        i += 1;
    }
    None
}

/// The report on an adapter.
pub open spec fn adapter_report(f: AdapterFacts, drivers: Seq<DriverEntryView>) -> GpuReportView {
    let driver = driver_for(drivers, f.vendor_id, f.device_id);
    GpuReportView {
        name: trimmed(utf16_text(before_nul(f.description@))),
        vendor: vendor_text(f.vendor_id),
        vendor_id: f.vendor_id,
        device_id: f.device_id,
        subsystem_id: f.subsystem_id,
        revision: f.revision,
        dedicated_vram_bytes: f.dedicated_video_memory,
        shared_memory_bytes: f.shared_system_memory,
        is_software: f.flags == ADAPTER_FLAG_SOFTWARE,
        has_output: f.has_output,
        driver_version: ReadingView::from_option(
            match driver {
                Some(d) => d.version,
                None => None,
            },
        ),
        driver_date: ReadingView::from_option(
            match driver {
                Some(d) => d.date,
                None => None,
            },
        ),
    }
}

fn cloned_text(t: &Option<String>) -> (r: Option<String>)
    ensures
        r.deep_view() == t.deep_view(),
{
    match t {
        Some(s) => Some(s.clone()),
        None => None,
    }
}

/// The report on one adapter, with its driver where one is recorded.
pub fn report_adapter(f: &AdapterFacts, drivers: &[DriverEntry]) -> (r: GpuReport)
    ensures
        r.deep_view() == adapter_report(*f, drivers.deep_view()),
{
    let (version, date) = match find_driver(drivers, f.vendor_id, f.device_id) {
        Some(d) => (cloned_text(&d.version), cloned_text(&d.date)),
        None => (None, None),
    };
    let description = wide_to_string(f.description.as_slice());
    GpuReport {
        name: trim(description.as_str()),
        vendor: String::from_str(vendor_name(f.vendor_id)),
        vendor_id: f.vendor_id,
        device_id: f.device_id,
        subsystem_id: f.subsystem_id,
        revision: f.revision,
        dedicated_vram_bytes: f.dedicated_video_memory,
        shared_memory_bytes: f.shared_system_memory,
        is_software: f.flags == ADAPTER_FLAG_SOFTWARE,
        has_output: f.has_output,
        driver_version: Reading::from(version),
        driver_date: Reading::from(date),
    }
}

/// The reports on all adapters, in order.
pub fn probe(adapters: &[AdapterFacts], drivers: &[DriverEntry]) -> (r: Vec<GpuReport>)
    ensures
        r.deep_view() == Seq::new(
            adapters@.len(),
            |i: int| adapter_report(adapters@[i], drivers.deep_view()),
        ),
{
    let mut out: Vec<GpuReport> = Vec::new();
    let mut i: usize = 0;
    while i < adapters.len()
        invariant
            i <= adapters.len(),
            out@.len() == i,
            forall|j: int|
                0 <= j < i ==> (#[trigger] out@[j]).deep_view() == adapter_report(
                    adapters@[j],
                    drivers.deep_view(),
                ),
        decreases adapters.len() - i,
    {
        out.push(report_adapter(&adapters[i], drivers));
        i += 1;
    }
    assert(out.deep_view() =~= Seq::new(
        adapters@.len(),
        |i: int| adapter_report(adapters@[i], drivers.deep_view()),
    ));
    out
}

/// The first adapter that is real hardware.
pub open spec fn first_hardware(gpus: Seq<GpuReportView>) -> Option<int>
    decreases gpus.len(),
{
    if gpus.len() == 0 {
        None
    } else {
        match first_hardware(gpus.drop_last()) {
            Some(i) => Some(i),
            None => if gpus.last().is_software {
                None
            } else {
                Some(gpus.len() - 1)
            },
        }
    }
}

/// The position of the first adapter that is real hardware.
pub fn find_hardware(gpus: &[GpuReport]) -> (r: Option<usize>)
    ensures
        match r {
            Some(i) => i < gpus@.len() && first_hardware(gpus.deep_view()) == Some(i as int),
            None => first_hardware(gpus.deep_view()) is None,
        },
{
    let ghost all = gpus.deep_view();
    let mut i: usize = 0;
    while i < gpus.len()
        invariant
            i <= gpus.len(),
            all == gpus.deep_view(),
            first_hardware(all.take(i as int)) is None,
        decreases gpus.len() - i,
    {
        assert(all.take(i + 1).drop_last() == all.take(i as int));
        if !gpus[i].is_software {
            proof {
                first_hardware_stays(all, i + 1);
            }
            return Some(i);
        }
        i += 1;
    }
    assert(all.take(all.len() as int) == all);
    None
}

proof fn first_hardware_stays(gpus: Seq<GpuReportView>, n: int)
    requires
        0 <= n <= gpus.len(),
        first_hardware(gpus.take(n)) is Some,
    ensures
        first_hardware(gpus) == first_hardware(gpus.take(n)),
    decreases gpus.len(),
{
    if n < gpus.len() {
        let head = gpus.drop_last();
        assert(head.take(n) == gpus.take(n));
        first_hardware_stays(head, n);
    } else {
        assert(gpus.take(n) == gpus);
    }
}

// ---------------------------------------------------------------------------
// Device ids
// ---------------------------------------------------------------------------

/// The character is a hexadecimal digit in small letters.
pub open spec fn is_hex(c: char) -> bool {
    is_digit(c) || 'a' <= c <= 'f'
}

/// Every character is a hexadecimal digit in small letters.
pub open spec fn all_hex(s: Seq<char>) -> bool {
    forall|i: int| 0 <= i < s.len() ==> is_hex(#[trigger] s[i])
}

/// The value of a hexadecimal digit.
pub open spec fn hex_digit_value(c: char) -> nat {
    if is_digit(c) {
        ((c as u32) - ('0' as u32)) as nat
    } else {
        (10 + (c as u32) - ('a' as u32)) as nat
    }
}

/// The number that hexadecimal digits stand for.
pub open spec fn hex_value(s: Seq<char>) -> nat
    decreases s.len(),
{
    if s.len() == 0 {
        0
    } else {
        16 * hex_value(s.drop_last()) + hex_digit_value(s.last())
    }
}

/// The number in the four characters at a position: hexadecimal digits, a plus sign before
/// them allowed.
pub open spec fn id_at(s: Seq<char>, at: int) -> Option<u32> {
    if at + 4 > s.len() {
        None
    } else {
        let id = s.subrange(at, at + 4);
        let d = if id[0] == '+' {
            id.drop_first()
        } else {
            id
        };
        if all_hex(d) {
            Some(hex_value(d) as u32)
        } else {
            None
        }
    }
}

/// The vendor and device ids after the first "ven_" and the first "dev_", in any case.
pub open spec fn device_ids(s: Seq<char>) -> Option<(u32, u32)> {
    let lower = ascii_lower(s);
    match (find_text(lower, "ven_"@), find_text(lower, "dev_"@)) {
        (Some(ven), Some(dev)) => match (id_at(lower, ven + 4), id_at(lower, dev + 4)) {
            (Some(v), Some(d)) => Some((v, d)),
            _ => None,
        },
        _ => None,
    }
}

fn read_id(s: &Vec<char>, at: usize) -> (r: Option<u32>)
    requires
        at <= s@.len(),
    ensures
        r == id_at(s@, at as int),
{
    if s.len() - at < 4 {
        return None;
    }
    let ghost id = s@.subrange(at as int, at + 4);
    let start: usize = if s[at] == '+' { at + 1 } else { at };
    let end: usize = at + 4;
    let ghost d = s@.subrange(start as int, end as int);
    assert(d == if id[0] == '+' {
        id.drop_first()
    } else {
        id
    });
    let mut value: u32 = 0;
    let mut i: usize = start;
    assert(d.take(0) =~= Seq::<char>::empty());
    while i < end
        invariant
            at <= start <= i <= end,
            end == at + 4,
            end <= s.len(),
            id == s@.subrange(at as int, at + 4),
            d == s@.subrange(start as int, end as int),
            d == (if id[0] == '+' {
                id.drop_first()
            } else {
                id
            }),
            forall|j: int| 0 <= j < i - start ==> is_hex(#[trigger] d[j]),
            value == hex_value(d.take(i - start)),
            i - start == 0 ==> value == 0,
            i - start == 1 ==> value < 16,
            i - start == 2 ==> value < 256,
            i - start == 3 ==> value < 4096,
            i - start == 4 ==> value < 65536,
        decreases end - i,
    {
        let c = s[i];
        assert(d[i - start] == c);
        assert(d.take(i - start + 1).drop_last() == d.take(i - start));
        assert(d.take(i - start + 1).last() == c);
        let k: u32 = if '0' <= c && c <= '9' {
            c as u32 - 48
        } else if 'a' <= c && c <= 'f' {
            c as u32 - 87
        } else {
            assert(!is_hex(d[i - start]));
            assert(!all_hex(d));
            return None;
        };
        value = value * 16 + k;
        i += 1;
    }
    assert(d.take(i - start) == d);
    Some(value)
}

/// Extract vendor and device IDs from a `MatchingDeviceId` string such as
/// `pci\ven_1002&dev_73df`. Case and what follows do not matter.
pub fn parse_matching_device_id(s: &str) -> (r: Option<(u32, u32)>)
    ensures
        r == device_ids(s@),
{
    let lower_text = to_ascii_lower(s);
    let lower = chars_of(lower_text.as_str());
    let ven_mark = chars_of("ven_");
    let dev_mark = chars_of("dev_");
    proof {
        reveal_strlit("ven_");
        reveal_strlit("dev_");
    }
    let ven = find(lower.as_slice(), ven_mark.as_slice());
    let dev = find(lower.as_slice(), dev_mark.as_slice());
    match (ven, dev) {
        (Some(v), Some(d)) => {
            assert(v + 4 <= lower.len() && d + 4 <= lower.len());
            let vendor = read_id(&lower, v + 4);
            let device = read_id(&lower, d + 4);
            match (vendor, device) {
                (Some(a), Some(b)) => Some((a, b)),
                _ => None,
            }
        },
        _ => None,
    }
}

// ---------------------------------------------------------------------------
// Laws
// ---------------------------------------------------------------------------

/// Case does not matter in a device id.
pub proof fn case_does_not_matter_in_a_device_id(a: Seq<char>, b: Seq<char>)
    requires
        ascii_lower(a) == ascii_lower(b),
    ensures
        device_ids(a) == device_ids(b),
{
}

/// Adapter memory is never cut down to 32 bits.
pub proof fn adapter_memory_is_reported_in_full(f: AdapterFacts, drivers: Seq<DriverEntryView>)
    ensures
        adapter_report(f, drivers).dedicated_vram_bytes == f.dedicated_video_memory,
{
}

/// What an adapter's report shows: its own figures as they are, the name of its vendor, and
/// whether it is a software renderer, which flags of exactly 2 mean.
pub proof fn an_adapter_is_reported_as_described(f: AdapterFacts, drivers: Seq<DriverEntryView>)
    ensures
        ({
            let r = adapter_report(f, drivers);
            &&& r.name == trimmed(utf16_text(before_nul(f.description@)))
            &&& r.vendor == vendor_text(f.vendor_id)
            &&& r.vendor_id == f.vendor_id
            &&& r.device_id == f.device_id
            &&& r.subsystem_id == f.subsystem_id
            &&& r.revision == f.revision
            &&& r.dedicated_vram_bytes == f.dedicated_video_memory
            &&& r.shared_memory_bytes == f.shared_system_memory
            &&& r.has_output == f.has_output
            &&& r.is_software <==> f.flags == 2
        }),
{
}

/// Entry `i` is the first for this adapter.
pub open spec fn first_driver_at(
    drivers: Seq<DriverEntryView>,
    vendor_id: u32,
    device_id: u32,
    i: int,
) -> bool {
    0 <= i < drivers.len() && drivers[i].vendor_id == vendor_id && drivers[i].device_id == device_id
        && forall|j: int|
        0 <= j < i ==> (#[trigger] drivers[j]).vendor_id != vendor_id || drivers[j].device_id
            != device_id
}

/// An adapter's driver is the first entry with both its ids; without one neither version nor date
/// is known.
pub proof fn a_driver_is_found_by_both_ids(
    f: AdapterFacts,
    drivers: Seq<DriverEntryView>,
    i: int,
)
    ensures
        ({
            let r = adapter_report(f, drivers);
            &&& first_driver_at(drivers, f.vendor_id, f.device_id, i) ==> r.driver_version.shows(
                drivers[i].version,
            ) && r.driver_date.shows(drivers[i].date)
            &&& (forall|j: int|
                0 <= j < drivers.len() ==> (#[trigger] drivers[j]).vendor_id != f.vendor_id
                    || drivers[j].device_id != f.device_id) ==> r.driver_version.is_not_offered()
                && r.driver_date.is_not_offered()
        }),
{
    driver_found(drivers, f.vendor_id, f.device_id, i);
}

proof fn driver_found(drivers: Seq<DriverEntryView>, vendor_id: u32, device_id: u32, i: int)
    ensures
        first_driver_at(drivers, vendor_id, device_id, i) ==> driver_for(
            drivers,
            vendor_id,
            device_id,
        ) == Some(drivers[i]),
        (forall|j: int|
            0 <= j < drivers.len() ==> (#[trigger] drivers[j]).vendor_id != vendor_id
                || drivers[j].device_id != device_id) ==> driver_for(
            drivers,
            vendor_id,
            device_id,
        ) is None,
    decreases drivers.len(),
{
    if drivers.len() > 0 {
        let rest = drivers.drop_first();
        driver_found(rest, vendor_id, device_id, i - 1);
        if first_driver_at(drivers, vendor_id, device_id, i) && i > 0 {
            assert(drivers[0].vendor_id != vendor_id || drivers[0].device_id != device_id);
            assert forall|j: int| 0 <= j < i - 1 implies (#[trigger] rest[j]).vendor_id != vendor_id
                || rest[j].device_id != device_id by {
                assert(rest[j] == drivers[j + 1]);
            }
            assert(rest[i - 1] == drivers[i]);
        }
        if forall|j: int|
            0 <= j < drivers.len() ==> (#[trigger] drivers[j]).vendor_id != vendor_id
                || drivers[j].device_id != device_id {
            assert(drivers[0].vendor_id != vendor_id || drivers[0].device_id != device_id);
            assert forall|j: int| 0 <= j < rest.len() implies (#[trigger] rest[j]).vendor_id
                != vendor_id || rest[j].device_id != device_id by {
                assert(rest[j] == drivers[j + 1]);
            }
        }
    }
}

/// The vendors that have a name: NVIDIA, AMD under two ids, Intel, Microsoft and Qualcomm. Two ids
/// share a name only where both are AMD's, and every other id is unknown.
pub proof fn vendors_are_told_apart(a: u32, b: u32)
    ensures
        ({
            let named = |id: u32|
                id == 0x10DE || id == 0x1002 || id == 0x1022 || id == 0x8086 || id == 0x1414 || id
                    == 0x5143;
            let amd = |id: u32| id == 0x1002 || id == 0x1022;
            &&& named(a) && named(b) && vendor_text(a) == vendor_text(b) ==> a == b || amd(a)
                && amd(b)
            &&& named(a) <==> vendor_text(a) != "Unknown"@
            &&& amd(a) <==> vendor_text(a) == "AMD"@
            &&& a == 0x10DE <==> vendor_text(a) == "NVIDIA"@
            &&& a == 0x8086 <==> vendor_text(a) == "Intel"@
            &&& a == 0x1414 <==> vendor_text(a) == "Microsoft"@
            &&& a == 0x5143 <==> vendor_text(a) == "Qualcomm"@
        }),
{
    reveal_strlit("NVIDIA");
    reveal_strlit("AMD");
    reveal_strlit("Intel");
    reveal_strlit("Microsoft");
    reveal_strlit("Qualcomm");
    reveal_strlit("Unknown");
    assert("NVIDIA"@.len() == 6 && "AMD"@.len() == 3 && "Intel"@.len() == 5 && "Microsoft"@.len()
        == 9 && "Qualcomm"@.len() == 8 && "Unknown"@.len() == 7);
}

proof fn drivers_of_a_longer_list(instances: Seq<DisplayInstance>, x: DisplayInstance, i: int)
    requires
        0 <= i <= instances.len() < 64,
        forall|j: int| 0 <= j < instances.len() ==> !((#[trigger] instances[j]) is Absent),
    ensures
        drivers_from(instances.push(x), i) == drivers_from(instances, i) + match instance_entry(x) {
            Some(entry) => seq![entry],
            None => seq![],
        },
    decreases instances.len() - i,
{
    let all = instances.push(x);
    if i < instances.len() {
        assert(all[i] == instances[i]);
        drivers_of_a_longer_list(instances, x, i + 1);
    } else {
        assert(all[i] == x);
        assert(drivers_from(all, i + 1) =~= Seq::<DriverEntryView>::empty());
    }
    assert(drivers_from(all, i) =~= drivers_from(instances, i) + match instance_entry(x) {
        Some(entry) => seq![entry],
        None => seq![],
    });
}

/// Every instance that opens and names a device adds its driver at the end; one that does not open
/// or names none adds nothing and ends nothing.
pub proof fn every_open_instance_adds_its_driver(
    instances: Seq<DisplayInstance>,
    x: DisplayInstance,
)
    requires
        instances.len() < 64,
        forall|j: int| 0 <= j < instances.len() ==> !((#[trigger] instances[j]) is Absent),
    ensures
        drivers_from(Seq::empty(), 0).len() == 0,
        match x {
            DisplayInstance::Open { matching, version, date } => match recorded(matching) {
                Some(m) => match device_ids(m) {
                    Some((vendor_id, device_id)) => drivers_from(instances.push(x), 0)
                        == drivers_from(instances, 0).push(
                        DriverEntryView {
                            vendor_id,
                            device_id,
                            version: recorded(version),
                            date: recorded(date),
                        },
                    ),
                    None => drivers_from(instances.push(x), 0) == drivers_from(instances, 0),
                },
                None => drivers_from(instances.push(x), 0) == drivers_from(instances, 0),
            },
            _ => drivers_from(instances.push(x), 0) == drivers_from(instances, 0),
        },
{
    drivers_of_a_longer_list(instances, x, 0);
}

/// What stands behind an absent instance, or behind the sixty-fourth, is not looked at.
pub proof fn the_walk_ends_at_an_absent_instance(
    instances: Seq<DisplayInstance>,
    more: Seq<DisplayInstance>,
    i: int,
)
    requires
        0 <= i <= instances.len(),
        instances.len() == 64 || more.len() > 0 && more[0] is Absent,
    ensures
        drivers_from(instances + more, i) == drivers_from(instances, i),
    decreases instances.len() - i,
{
    let all = instances + more;
    if i < instances.len() && i < 64 {
        assert(all[i] == instances[i]);
        if !(instances[i] is Absent) {
            the_walk_ends_at_an_absent_instance(instances, more, i + 1);
        }
    } else if i < 64 {
        assert(all[i] == more[0]);
    }
}

/// The value of a hexadecimal digit in small letters; nothing for any other character.
pub open spec fn nibble(c: char) -> Option<int> {
    if '0' <= c <= '9' {
        Some(c as u32 - '0' as u32)
    } else if 'a' <= c <= 'f' {
        Some(c as u32 - 'a' as u32 + 10)
    } else {
        None
    }
}

/// One of the four characters at `p` is no hexadecimal digit; a plus sign in front is let pass.
pub open spec fn no_id_at(text: Seq<char>, p: int) -> bool {
    p + 4 <= text.len() && ({
        ||| nibble(text[p]) is None && text[p] != '+'
        ||| nibble(text[p + 1]) is None
        ||| nibble(text[p + 2]) is None
        ||| nibble(text[p + 3]) is None
    })
}

/// The four hexadecimal digits at `p` write this number.
pub open spec fn writes_id(text: Seq<char>, p: int, id: int) -> bool {
    &&& p + 4 <= text.len()
    &&& nibble(text[p]) matches Some(a)
    &&& nibble(text[p + 1]) matches Some(b)
    &&& nibble(text[p + 2]) matches Some(c)
    &&& nibble(text[p + 3]) matches Some(d)
    &&& id == 4096 * a + 256 * b + 16 * c + d
}

proof fn four_digits(text: Seq<char>, p: int, id: int)
    requires
        0 <= p,
        writes_id(text, p, id),
    ensures
        id_at(text, p) == Some(id as u32),
{
    reveal_with_fuel(hex_value, 5);
    let s = text.subrange(p, p + 4);
    assert(s[0] == text[p] && s[1] == text[p + 1] && s[2] == text[p + 2] && s[3] == text[p + 3]);
    assert forall|i: int| 0 <= i < s.len() implies is_hex(#[trigger] s[i]) by {
        assert(i == 0 || i == 1 || i == 2 || i == 3);
    }
    let t3 = s.drop_last();
    let t2 = t3.drop_last();
    let t1 = t2.drop_last();
    assert(s.last() == s[3] && t3.last() == s[2] && t2.last() == s[1] && t1.last() == s[0]);
    assert(t1.drop_last().len() == 0);
}

/// The ids of a device are the four hexadecimal digits behind the first "ven_" and those behind
/// the first "dev_", in any case and in either order. Without one of the marks, or where the text
/// ends before its four digits, there are none.
pub proof fn device_ids_follow_their_marks(s: Seq<char>, p: int, q: int, vendor: int, device: int)
    ensures
        ({
            let text = ascii_lower(s);
            &&& stands_first_at(text, "ven_"@, p) && stands_first_at(text, "dev_"@, q) && writes_id(
                text,
                p + 4,
                vendor,
            ) && writes_id(text, q + 4, device) ==> device_ids(s) == Some(
                (vendor as u32, device as u32),
            )
            &&& nowhere_in(text, "ven_"@) || nowhere_in(text, "dev_"@) ==> device_ids(s) is None
            &&& stands_first_at(text, "ven_"@, p) && p + 8 > text.len() ==> device_ids(s) is None
            &&& stands_first_at(text, "dev_"@, q) && q + 8 > text.len() ==> device_ids(s) is None
            &&& stands_first_at(text, "ven_"@, p) && no_id_at(text, p + 4) ==> device_ids(s) is None
            &&& stands_first_at(text, "dev_"@, q) && no_id_at(text, q + 4) ==> device_ids(s) is None
        }),
{
    let text = ascii_lower(s);
    found_where_it_stands_first(text, "ven_"@, p);
    found_where_it_stands_first(text, "dev_"@, q);
    if stands_first_at(text, "ven_"@, p) && writes_id(text, p + 4, vendor) {
        four_digits(text, p + 4, vendor);
    }
    if stands_first_at(text, "dev_"@, q) && writes_id(text, q + 4, device) {
        four_digits(text, q + 4, device);
    }
    if stands_first_at(text, "ven_"@, p) && no_id_at(text, p + 4) {
        no_four_digits(text, p + 4);
    }
    if stands_first_at(text, "dev_"@, q) && no_id_at(text, q + 4) {
        no_four_digits(text, q + 4);
    }
}

proof fn no_four_digits(text: Seq<char>, p: int)
    requires
        0 <= p,
        no_id_at(text, p),
    ensures
        id_at(text, p) is None,
{
    let id = text.subrange(p, p + 4);
    let d = if id[0] == '+' {
        id.drop_first()
    } else {
        id
    };
    assert(id[0] == text[p] && id[1] == text[p + 1] && id[2] == text[p + 2] && id[3] == text[p
        + 3]);
    if all_hex(d) {
        if id[0] == '+' {
            assert(d[0] == id[1] && d[1] == id[2] && d[2] == id[3]);
            assert(is_hex(d[0]) && is_hex(d[1]) && is_hex(d[2]));
        } else {
            assert(is_hex(d[0]) && is_hex(d[1]) && is_hex(d[2]) && is_hex(d[3]));
        }
    }
}

/// The first hardware adapter is the first that is no software renderer.
pub proof fn the_first_hardware_adapter_is_first(gpus: Seq<GpuReportView>)
    ensures
        match first_hardware(gpus) {
            Some(i) => 0 <= i < gpus.len() && !gpus[i].is_software && forall|j: int|
                0 <= j < i ==> (#[trigger] gpus[j]).is_software,
            None => forall|j: int| 0 <= j < gpus.len() ==> (#[trigger] gpus[j]).is_software,
        },
    decreases gpus.len(),
{
    if gpus.len() > 0 {
        let head = gpus.drop_last();
        the_first_hardware_adapter_is_first(head);
        match first_hardware(head) {
            Some(i) => {
                assert forall|j: int| 0 <= j < i implies (#[trigger] gpus[j]).is_software by {
                    assert(gpus[j] == head[j]);
                }
            },
            None => {
                assert forall|j: int| 0 <= j < gpus.len() - 1 implies (
                #[trigger] gpus[j]).is_software by {
                    assert(gpus[j] == head[j]);
                }
            },
        }
    }
}

} // verus!
