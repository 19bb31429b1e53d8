//! Storage probe: which drives there are, and what they say of their own health.
//!
//! Power-on hours is the closest thing a PC has to an odometer, and unlike the chassis
//! condition or a freshly reinstalled operating system, a seller cannot easily reset it.
use vstd::prelude::*;

use crate::bytes::{le16, le32, le64, push_zeros, read_le16, read_le32, read_le64};
use crate::model::{Reading, ReadingView, Unavailable, UnavailableView};
use crate::probes::ata_smart::{AtaHealth, AtaHealthView};
use crate::text::number::{push_signed, signed};
use crate::text::{from_utf8_lossy, trim, trimmed, utf8_lossy};
use crate::win::{error_text, WinError};

verus! {

// ---------------------------------------------------------------------------
// Kernel ABI (winioctl.h / ntddstor.h)
// ---------------------------------------------------------------------------

pub const STORAGE_PROPERTY_DEVICE: u8 = 0;

pub const STORAGE_PROPERTY_DEVICE_PROTOCOL_SPECIFIC: u8 = 50;

pub const PROPERTY_STANDARD_QUERY: u8 = 0;

pub const PROTOCOL_TYPE_NVME: u8 = 3;

pub const NVME_DATA_TYPE_LOG_PAGE: u8 = 2;

pub const NVME_LOG_PAGE_HEALTH_INFO: u8 = 0x02;

/// NVMe requires the caller to request at least a full 512-byte log page.
pub const NVME_LOG_PAGE_SIZE: usize = 512;

/// Size of `STORAGE_PROTOCOL_SPECIFIC_DATA`.
pub const PROTOCOL_SPECIFIC_SIZE: usize = 40;

/// Size of `STORAGE_PROPERTY_QUERY`.
pub const PROPERTY_QUERY_SIZE: usize = 16;

/// Size of a property query that carries protocol-specific data.
pub const PROTOCOL_QUERY_SIZE: usize = 48;

/// Size of the fixed head of `STORAGE_DEVICE_DESCRIPTOR`.
pub const DESCRIPTOR_HEADER_SIZE: usize = 36;

/// The name of a `STORAGE_BUS_TYPE`.
pub open spec fn bus_name(v: u32) -> Seq<char> {
    match v {
        0x01 => "SCSI"@,
        0x02 => "ATAPI"@,
        0x03 => "ATA"@,
        0x04 => "IEEE 1394"@,
        0x05 => "SSA"@,
        0x06 => "Fibre Channel"@,
        0x07 => "USB"@,
        0x08 => "RAID"@,
        0x09 => "iSCSI"@,
        0x0A => "SAS"@,
        0x0B => "SATA"@,
        0x0C => "SD"@,
        0x0D => "MMC"@,
        0x11 => "NVMe"@,
        0x12 => "SCM"@,
        0x13 => "UFS"@,
        _ => "Unknown"@,
    }
}

/// `STORAGE_BUS_TYPE`
pub fn bus_type_name(v: u32) -> (r: &'static str)
    ensures
        r@ == bus_name(v),
{
    match v {
        0x01 => "SCSI",
        0x02 => "ATAPI",
        0x03 => "ATA",
        0x04 => "IEEE 1394",
        0x05 => "SSA",
        0x06 => "Fibre Channel",
        0x07 => "USB",
        0x08 => "RAID",
        0x09 => "iSCSI",
        0x0A => "SAS",
        0x0B => "SATA",
        0x0C => "SD",
        0x0D => "MMC",
        0x11 => "NVMe",
        0x12 => "SCM",
        0x13 => "UFS",
        _ => "Unknown",
    }
}

// ---------------------------------------------------------------------------
// Public shape
// ---------------------------------------------------------------------------

#[derive(Debug, Clone)]
pub struct NvmeHealth {
    /// Non-zero means the controller is asserting a fault right now.
    pub critical_warning: u8,
    /// In hundredths of a degree Celsius.
    pub composite_temp_centi_c: Reading<i32>,
    pub available_spare_percent: Reading<u8>,
    pub available_spare_threshold_percent: Reading<u8>,
    /// Vendor wear estimate. Can exceed 100 on a worn drive.
    pub percentage_used: Reading<u8>,
    pub power_on_hours: Reading<u64>,
    pub power_cycles: Reading<u64>,
    pub unsafe_shutdowns: Reading<u64>,
    pub media_errors: Reading<u64>,
    pub error_log_entries: Reading<u64>,
    pub data_units_read: Reading<u64>,
    pub data_units_written: Reading<u64>,
    /// Derived from data units written (1 unit = 512 000 bytes).
    pub bytes_written: Reading<u128>,
}

/// The mathematical model of [`NvmeHealth`].
#[verifier::ext_equal]
pub struct NvmeHealthView {
    pub critical_warning: u8,
    pub composite_temp_centi_c: ReadingView<i32>,
    pub available_spare_percent: ReadingView<u8>,
    pub available_spare_threshold_percent: ReadingView<u8>,
    pub percentage_used: ReadingView<u8>,
    pub power_on_hours: ReadingView<u64>,
    pub power_cycles: ReadingView<u64>,
    pub unsafe_shutdowns: ReadingView<u64>,
    pub media_errors: ReadingView<u64>,
    pub error_log_entries: ReadingView<u64>,
    pub data_units_read: ReadingView<u64>,
    pub data_units_written: ReadingView<u64>,
    pub bytes_written: ReadingView<u128>,
}

impl DeepView for NvmeHealth {
    type V = NvmeHealthView;

    open spec fn deep_view(&self) -> NvmeHealthView {
        NvmeHealthView {
            critical_warning: self.critical_warning,
            composite_temp_centi_c: self.composite_temp_centi_c.deep_view(),
            available_spare_percent: self.available_spare_percent.deep_view(),
            available_spare_threshold_percent: self.available_spare_threshold_percent.deep_view(),
            percentage_used: self.percentage_used.deep_view(),
            power_on_hours: self.power_on_hours.deep_view(),
            power_cycles: self.power_cycles.deep_view(),
            unsafe_shutdowns: self.unsafe_shutdowns.deep_view(),
            media_errors: self.media_errors.deep_view(),
            error_log_entries: self.error_log_entries.deep_view(),
            data_units_read: self.data_units_read.deep_view(),
            data_units_written: self.data_units_written.deep_view(),
            bytes_written: self.bytes_written.deep_view(),
        }
    }
}

/// Drive health, tagged by the command set it came from.
///
/// NVMe and ATA expose genuinely different data, so they are kept distinct rather than
/// flattened into a lowest-common-denominator shape.
#[derive(Debug, Clone)]
pub enum DriveHealth {
    Nvme(NvmeHealth),
    Ata(AtaHealth),
}

/// The mathematical model of [`DriveHealth`].
#[verifier::ext_equal]
pub enum DriveHealthView {
    Nvme(NvmeHealthView),
    Ata(AtaHealthView),
}

impl DeepView for DriveHealth {
    type V = DriveHealthView;

    open spec fn deep_view(&self) -> DriveHealthView {
        match self {
            DriveHealth::Nvme(h) => DriveHealthView::Nvme(h.deep_view()),
            DriveHealth::Ata(h) => DriveHealthView::Ata(h.deep_view()),
        }
    }
}

#[derive(Debug, Clone)]
pub struct DriveReport {
    pub index: u32,
    pub model: Reading<String>,
    pub serial: Reading<String>,
    pub firmware: Reading<String>,
    pub bus_type: String,
    pub removable: bool,
    pub health: Reading<DriveHealth>,
}

/// The mathematical model of [`DriveReport`].
#[verifier::ext_equal]
pub struct DriveReportView {
    pub index: u32,
    pub model: ReadingView<Seq<char>>,
    pub serial: ReadingView<Seq<char>>,
    pub firmware: ReadingView<Seq<char>>,
    pub bus_type: Seq<char>,
    pub removable: bool,
    pub health: ReadingView<DriveHealthView>,
}

impl DeepView for DriveReport {
    type V = DriveReportView;

    open spec fn deep_view(&self) -> DriveReportView {
        DriveReportView {
            index: self.index,
            model: self.model.deep_view(),
            serial: self.serial.deep_view(),
            firmware: self.firmware.deep_view(),
            bus_type: self.bus_type@,
            removable: self.removable,
            health: self.health.deep_view(),
        }
    }
}

// ---------------------------------------------------------------------------
// Enumeration
// ---------------------------------------------------------------------------

/// The state of the walk over drive indices. Drive indices are not guaranteed to be dense,
/// so the walk goes on over gaps until it is clearly past the end of the drive list.
#[derive(Debug, Clone, Copy)]
pub struct DriveScan {
    /// The index to try next.
    pub index: u32,
    /// How many indices in a row have just failed to open.
    pub misses: u32,
    /// Some drive has opened.
    pub found: bool,
    /// The walk is over.
    pub done: bool,
}

impl DriveScan {
    /// A walk that is not over has an index left to try, and has not yet failed too often.
    pub open spec fn wf(self) -> bool {
        !self.done ==> self.index < 64 && self.misses < 16
    }

    /// The state before the first index.
    pub open spec fn start() -> DriveScan {
        DriveScan { index: 0, misses: 0, found: false, done: false }
    }

    /// The state after the drive at `self.index` opened, or failed to.
    pub open spec fn step(self, opened: bool) -> DriveScan {
        let misses = if opened {
            0int
        } else {
            self.misses + 1
        };
        DriveScan {
            index: (self.index + 1) as u32,
            misses: misses as u32,
            found: self.found || opened,
            done: (misses >= 8 && self.found) || misses >= 16 || self.index + 1 >= 64,
        }
    }

    /// The state after these drives were tried in turn, as long as the walk goes on.
    pub open spec fn after(opened: Seq<bool>) -> DriveScan
        decreases opened.len(),
    {
        if opened.len() == 0 {
            Self::start()
        } else {
            let before = Self::after(opened.drop_last());
            if before.done {
                before
            } else {
                before.step(opened.last())
            }
        }
    }

    pub fn new() -> (s: Self)
        ensures
            s.wf(),
            s == Self::start(),
    {
        DriveScan { index: 0, misses: 0, found: false, done: false }
    }

    /// The index to try next, if any is left.
    pub fn next_index(&self) -> (r: Option<u32>)
        ensures
            r == if self.done {
                None
            } else {
                Some(self.index)
            },
    {
        if self.done {
            None
        } else {
            Some(self.index)
        }
    }

    /// Note whether the drive at the index just tried could be opened.
    pub fn record(&mut self, opened: bool)
        requires
            old(self).wf(),
            !old(self).done,
        ensures
            final(self).wf(),
            *final(self) == old(self).step(opened),
    {
        let misses = if opened { 0u32 } else { self.misses + 1 };
        let done = (misses >= 8 && self.found) || misses >= 16 || self.index + 1 >= 64;
        self.index = self.index + 1;
        self.misses = misses;
        self.found = self.found || opened;
        self.done = done;
    }
}

/// How many of the tries just before try `i` failed, in a row.
pub open spec fn misses_before(opened: Seq<bool>, i: int) -> nat
    decreases i,
{
    if i <= 0 || opened[i - 1] {
        0
    } else {
        1 + misses_before(opened, i - 1)
    }
}

/// Some try before `i` succeeded.
pub open spec fn found_before(opened: Seq<bool>, i: int) -> bool {
    exists|j: int| 0 <= j < i && opened[j]
}

/// The walk gives up before try `i`: 16 tries in a row have failed, or 8 in a row after
/// some drive was found, or all 64 indices have been tried.
pub open spec fn gives_up_at(opened: Seq<bool>, i: int) -> bool {
    misses_before(opened, i) >= 16 || (misses_before(opened, i) >= 8 && found_before(opened, i)) || i
        >= 64
}

/// The walk over drive indices ends exactly where it gives up: it is still going after a
/// number of tries if and only if at none of them, first to last, did the failures just
/// before amount to giving up. So a drive behind a shorter gap is always tried.
pub proof fn the_scan_ends_exactly_where_it_gives_up(opened: Seq<bool>)
    ensures
        !DriveScan::after(opened).done <==> forall|i: int|
            0 <= i <= opened.len() ==> !#[trigger] gives_up_at(opened, i),
        !DriveScan::after(opened).done ==> {
            &&& DriveScan::after(opened).index == opened.len()
            &&& DriveScan::after(opened).index < 64
            &&& DriveScan::after(opened).misses == misses_before(opened, opened.len() as int)
            &&& DriveScan::after(opened).misses < 16
            &&& DriveScan::after(opened).found == found_before(opened, opened.len() as int)
        },
    decreases opened.len(),
{
    if opened.len() == 0 {
        assert forall|i: int| 0 <= i <= opened.len() implies !#[trigger] gives_up_at(opened, i) by {}
    } else {
        let head = opened.drop_last();
        let n = opened.len() as int;
        the_scan_ends_exactly_where_it_gives_up(head);
        assert forall|i: int| 0 <= i < n implies #[trigger] gives_up_at(opened, i) == gives_up_at(
            head,
            i,
        ) by {
            same_prefix(opened, head, i);
        }
        same_prefix(opened, head, n - 1);
        let before = DriveScan::after(head);
        if before.done {
            let i = choose|i: int| 0 <= i <= head.len() && gives_up_at(head, i);
            assert(gives_up_at(opened, i));
        } else {
            assert forall|i: int| 0 <= i < n implies !#[trigger] gives_up_at(opened, i) by {
                assert(!gives_up_at(head, i));
            }
            assert(misses_before(opened, n) == if opened.last() {
                0
            } else {
                before.misses + 1
            });
            if opened.last() {
                assert(opened[n - 1]);
            }
            assert(found_before(opened, n) == (before.found || opened.last()));
            assert(DriveScan::after(opened) == before.step(opened.last()));
            // A drive that has just opened ends no gap.
            assert(DriveScan::after(opened).done == gives_up_at(opened, n)) by {
                if !opened.last() {
                    assert(found_before(opened, n) == before.found);
                }
            }
        }
    }
}

proof fn same_prefix(a: Seq<bool>, b: Seq<bool>, i: int)
    requires
        0 <= i <= b.len() <= a.len(),
        forall|j: int| 0 <= j < b.len() ==> a[j] == b[j],
    ensures
        misses_before(a, i) == misses_before(b, i),
        found_before(a, i) == found_before(b, i),
    decreases i,
{
    if i > 0 {
        same_prefix(a, b, i - 1);
    }
    if found_before(a, i) {
        let j = choose|j: int| 0 <= j < i && a[j];
        assert(b[j]);
    }
    if found_before(b, i) {
        let j = choose|j: int| 0 <= j < i && b[j];
        assert(a[j]);
    }
}

// ---------------------------------------------------------------------------
// The device descriptor
// ---------------------------------------------------------------------------

/// What a drive's descriptor says of it.
#[derive(Debug, Clone)]
pub struct DeviceDescriptor {
    pub product: Option<String>,
    pub serial: Option<String>,
    pub revision: Option<String>,
    pub bus_type: u32,
    pub removable: bool,
}

/// The mathematical model of [`DeviceDescriptor`].
#[verifier::ext_equal]
pub struct DeviceDescriptorView {
    pub product: Option<Seq<char>>,
    pub serial: Option<Seq<char>>,
    pub revision: Option<Seq<char>>,
    pub bus_type: u32,
    pub removable: bool,
}

impl DeepView for DeviceDescriptor {
    type V = DeviceDescriptorView;

    open spec fn deep_view(&self) -> DeviceDescriptorView {
        DeviceDescriptorView {
            product: self.product.deep_view(),
            serial: self.serial.deep_view(),
            revision: self.revision.deep_view(),
            bus_type: self.bus_type,
            removable: self.removable,
        }
    }
}

/// The text at an offset of a descriptor: up to the next NUL or the end, without the white
/// space around it. Offset 0 means that there is none, and so does an empty text.
pub open spec fn descriptor_text(d: Seq<u8>, offset: u32) -> Option<Seq<char>> {
    if offset == 0 || offset >= d.len() {
        None
    } else {
        let tail = d.skip(offset as int);
        let s = trimmed(utf8_lossy(tail.take(crate::probes::firmware::first_nul(tail) as int)));
        if s.len() == 0 {
            None
        } else {
            Some(s)
        }
    }
}

/// The descriptor in the bytes that the driver wrote; none where they do not hold its head.
pub open spec fn descriptor_of(d: Seq<u8>) -> Option<DeviceDescriptorView> {
    if d.len() < DESCRIPTOR_HEADER_SIZE {
        None
    } else {
        Some(
            DeviceDescriptorView {
                product: descriptor_text(d, le32(d, 16)),
                serial: descriptor_text(d, le32(d, 24)),
                revision: descriptor_text(d, le32(d, 20)),
                bus_type: le32(d, 28),
                removable: d[10] != 0,
            },
        )
    }
}

fn text_at(d: &[u8], offset: u32) -> (r: Option<String>)
    ensures
        r.deep_view() == descriptor_text(d@, offset),
{
    if offset == 0 || offset as usize >= d.len() {
        return None;
    }
    let start = offset as usize;
    let end = crate::probes::firmware::find_nul(d, start);
    let piece = vstd::slice::slice_subrange(d, start, end);
    assert(piece@ == d@.skip(start as int).take(end - start));
    let text = from_utf8_lossy(piece);
    let s = trim(text.as_str());
    if s.as_str().is_empty() {
        None
    } else {
        Some(s)
    }
}

/// Decode the device descriptor from the bytes that the driver wrote.
pub fn parse_descriptor(d: &[u8]) -> (r: Option<DeviceDescriptor>)
    ensures
        r.deep_view() == descriptor_of(d@),
{
    if d.len() < DESCRIPTOR_HEADER_SIZE {
        return None;
    }
    Some(
        DeviceDescriptor {
            product: text_at(d, read_le32(d, 16)),
            serial: text_at(d, read_le32(d, 24)),
            revision: text_at(d, read_le32(d, 20)),
            bus_type: read_le32(d, 28),
            removable: d[10] != 0,
        },
    )
}

/// The input of the device-descriptor query: property 0, standard query, nothing more.
pub fn descriptor_request() -> (r: Vec<u8>)
    ensures
        r@ == seq![STORAGE_PROPERTY_DEVICE, 0u8, 0u8, 0u8, PROPERTY_STANDARD_QUERY, 0u8, 0u8, 0u8]
            + Seq::new(8, |i: int| 0u8),
        r@.len() == PROPERTY_QUERY_SIZE,
{
    let mut v: Vec<u8> = Vec::new();
    v.push(STORAGE_PROPERTY_DEVICE);
    push_zeros(&mut v, 3);
    v.push(PROPERTY_STANDARD_QUERY);
    push_zeros(&mut v, 11);
    assert(v@ =~= seq![
        STORAGE_PROPERTY_DEVICE,
        0u8,
        0u8,
        0u8,
        PROPERTY_STANDARD_QUERY,
        0u8,
        0u8,
        0u8,
    ] + Seq::new(8, |i: int| 0u8));
    v
}

// ---------------------------------------------------------------------------
// NVMe health
// ---------------------------------------------------------------------------

/// The input of the NVMe health query: the property, the query kind, then the protocol, the
/// kind of data, the log page, and where its 512 bytes are to be put.
pub open spec fn nvme_request_bytes() -> Seq<u8> {
    seq![
        STORAGE_PROPERTY_DEVICE_PROTOCOL_SPECIFIC, 0u8, 0u8, 0u8,
        PROPERTY_STANDARD_QUERY, 0u8, 0u8, 0u8,
        PROTOCOL_TYPE_NVME, 0u8, 0u8, 0u8,
        NVME_DATA_TYPE_LOG_PAGE, 0u8, 0u8, 0u8,
        NVME_LOG_PAGE_HEALTH_INFO, 0u8, 0u8, 0u8,
        0u8, 0u8, 0u8, 0u8,
        40u8, 0u8, 0u8, 0u8,
        0u8, 2u8, 0u8, 0u8,
    ] + Seq::new(16, |i: int| 0u8)
}

pub fn nvme_request() -> (r: Vec<u8>)
    ensures
        r@ == nvme_request_bytes(),
        r@.len() == PROTOCOL_QUERY_SIZE,
{
    let mut v: Vec<u8> = Vec::new();
    v.push(STORAGE_PROPERTY_DEVICE_PROTOCOL_SPECIFIC);
    push_zeros(&mut v, 3);
    v.push(PROPERTY_STANDARD_QUERY);
    push_zeros(&mut v, 3);
    v.push(PROTOCOL_TYPE_NVME);
    push_zeros(&mut v, 3);
    v.push(NVME_DATA_TYPE_LOG_PAGE);
    push_zeros(&mut v, 3);
    v.push(NVME_LOG_PAGE_HEALTH_INFO);
    push_zeros(&mut v, 7);
    v.push(40);
    push_zeros(&mut v, 4);
    v.push(2);
    push_zeros(&mut v, 18);
    assert(v@ =~= nvme_request_bytes());
    v
}

/// The length of the buffer for the reply to the NVMe health query.
pub const NVME_REPLY_SIZE: usize = 624;

/// The log page in the reply to the NVMe health query, of which `written` bytes were
/// written: the descriptor's version and size (8 bytes) and the specific data (40) come
/// first.
pub open spec fn log_page(reply: Seq<u8>, written: u32) -> Seq<u8> {
    reply.subrange(
        48,
        if written < 560 {
            written as int
        } else {
            560
        },
    )
}

/// Decode the reply to the NVMe health query. A log page of fewer than 192 bytes lacks the
/// counters and is an error.
pub fn nvme_health_from(reply: &[u8], written: u32) -> (r: Result<NvmeHealth, WinError>)
    requires
        reply@.len() == NVME_REPLY_SIZE,
    ensures
        match r {
            Ok(h) => written >= 240 && h.deep_view() == nvme_health(log_page(reply@, written)),
            Err(e) => written < 240 && e.context@ == "nvme health log truncated"@ && e.code
                == written,
        },
{
    if written < 240 {
        return Err(WinError::new("nvme health log truncated", written));
    }
    let end: usize = if written < 560 { written as usize } else { 560 };
    Ok(parse_nvme_health(vstd::slice::slice_subrange(reply, 48, end)))
}

/// The low 64 bits of a 128-bit counter. Real drives never approach 2^64 of anything here.
pub open spec fn log_counter(log: Seq<u8>, off: int) -> ReadingView<u64> {
    if off + 8 <= log.len() {
        ReadingView::value(le64(log, off))
    } else {
        ReadingView::unsupported()
    }
}

/// A byte of the log.
pub open spec fn log_byte(log: Seq<u8>, off: int) -> ReadingView<u8> {
    if off < log.len() {
        ReadingView::value(log[off])
    } else {
        ReadingView::unsupported()
    }
}

/// The composite temperature in hundredths of a degree Celsius. The field is absolute
/// Kelvin; 0 means "not reported", and a value outside -40 to 125 degrees is implausible.
pub open spec fn log_temperature(log: Seq<u8>) -> ReadingView<i32> {
    if log.len() < 3 || le16(log, 1) == 0 {
        ReadingView::unsupported()
    } else {
        let kelvin = le16(log, 1) as int;
        let centi = 100 * kelvin - 27315;
        if -4000 <= centi <= 12500 {
            ReadingView::value(centi as i32)
        } else {
            ReadingView::missing(UnavailableView::ImplausibleValue(signed(kelvin - 273) + " C"@))
        }
    }
}

/// The volume written, from the count of data units. One data unit is 1000 * 512 bytes.
pub open spec fn volume_of(units: ReadingView<u64>) -> ReadingView<u128> {
    match units.get() {
        Some(n) => ReadingView::value((n * 512_000) as u128),
        None => ReadingView::unsupported(),
    }
}

/// What an NVMe SMART / Health Information log page says.
pub open spec fn nvme_health(log: Seq<u8>) -> NvmeHealthView {
    NvmeHealthView {
        critical_warning: if log.len() > 0 {
            log[0]
        } else {
            0
        },
        composite_temp_centi_c: log_temperature(log),
        available_spare_percent: log_byte(log, 3),
        available_spare_threshold_percent: log_byte(log, 4),
        percentage_used: log_byte(log, 5),
        power_on_hours: log_counter(log, 128),
        power_cycles: log_counter(log, 112),
        unsafe_shutdowns: log_counter(log, 144),
        media_errors: log_counter(log, 160),
        error_log_entries: log_counter(log, 176),
        data_units_read: log_counter(log, 32),
        data_units_written: log_counter(log, 48),
        bytes_written: volume_of(log_counter(log, 48)),
    }
}

fn counter_at(log: &[u8], off: usize) -> (r: Reading<u64>)
    requires
        off <= 1000,
    ensures
        r.deep_view() == log_counter(log@, off as int),
{
    if off + 8 <= log.len() {
        Reading::value(read_le64(log, off))
    } else {
        Reading::unsupported()
    }
}

fn byte_at(log: &[u8], off: usize) -> (r: Reading<u8>)
    ensures
        r.deep_view() == log_byte(log@, off as int),
{
    if off < log.len() {
        Reading::value(log[off])
    } else {
        Reading::unsupported()
    }
}

fn temperature_at(log: &[u8]) -> (r: Reading<i32>)
    ensures
        r.deep_view() == log_temperature(log@),
{
    if log.len() < 3 {
        return Reading::unsupported();
    }
    let kelvin = read_le16(log, 1) as i32;
    if kelvin == 0 {
        return Reading::unsupported();
    }
    let centi: i32 = 100 * kelvin - 27315;
    if -4000 <= centi && centi <= 12500 {
        Reading::value(centi)
    } else {
        let mut s = String::new();
        push_signed(&mut s, (kelvin - 273) as i64);
        assert(s@ == signed(kelvin - 273));
        s.append(" C");
        Reading::missing(Unavailable::ImplausibleValue(s))
    }
}

/// Decode the NVMe SMART / Health Information log page (NVMe spec, log page 02h).
pub fn parse_nvme_health(log: &[u8]) -> (h: NvmeHealth)
    ensures
        h.deep_view() == nvme_health(log@),
{
    let data_units_written = counter_at(log, 48);
    let bytes_written: Reading<u128> = match data_units_written.get() {
        Some(units) => {
            let n: u64 = *units;
            Reading::value(n as u128 * 512_000)
        },
        None => Reading::unsupported(),
    };
    NvmeHealth {
        critical_warning: if log.len() > 0 {
            log[0]
        } else {
            0
        },
        composite_temp_centi_c: temperature_at(log),
        available_spare_percent: byte_at(log, 3),
        available_spare_threshold_percent: byte_at(log, 4),
        percentage_used: byte_at(log, 5),
        power_on_hours: counter_at(log, 128),
        power_cycles: counter_at(log, 112),
        unsafe_shutdowns: counter_at(log, 144),
        media_errors: counter_at(log, 160),
        error_log_entries: counter_at(log, 176),
        data_units_read: counter_at(log, 32),
        data_units_written,
        bytes_written,
    }
}

// ---------------------------------------------------------------------------
// One drive
// ---------------------------------------------------------------------------

/// Which command set to ask a drive for its health.
#[derive(Debug, Clone, Copy, PartialEq, Eq, Structural)]
pub enum HealthQuery {
    Nvme,
    Ata,
    /// USB enclosures and RAID volumes usually pass neither command set through.
    Nothing,
}

/// The answer to a health query.
#[derive(Debug)]
pub enum HealthReply {
    Nvme(Result<NvmeHealth, WinError>),
    Ata(Reading<AtaHealth>),
    Nothing,
}

/// The command set that a drive on a bus speaks. SATA, ATA and ATAPI all speak the ATA
/// SMART command set.
pub open spec fn query_for(bus: u32) -> HealthQuery {
    if bus == 0x11 {
        HealthQuery::Nvme
    } else if bus == 0x02 || bus == 0x03 || bus == 0x0B {
        HealthQuery::Ata
    } else {
        HealthQuery::Nothing
    }
}

/// Which command set to ask a drive for its health. A drive without a descriptor is on an
/// unknown bus.
pub fn health_query(descriptor: &Option<DeviceDescriptor>) -> (r: HealthQuery)
    ensures
        r == query_for(
            match descriptor {
                Some(d) => d.bus_type,
                None => 0,
            },
        ),
{
    let bus = match descriptor {
        Some(d) => d.bus_type,
        None => 0,
    };
    match bus {
        0x11 => HealthQuery::Nvme,
        0x02 | 0x03 | 0x0B => HealthQuery::Ata,
        _ => HealthQuery::Nothing,
    }
}

/// The health that an answer gives.
pub open spec fn health_from(reply: HealthReply) -> ReadingView<DriveHealthView> {
    match reply {
        HealthReply::Nvme(Ok(h)) => ReadingView::value(DriveHealthView::Nvme(h.deep_view())),
        HealthReply::Nvme(Err(e)) => ReadingView::failed(error_text(e.context@, e.code)),
        HealthReply::Ata(r) => match r.deep_view() {
            ReadingView::Value { value, .. } => ReadingView::value(DriveHealthView::Ata(value)),
            ReadingView::Missing { reason, note, .. } => ReadingView::Missing {
                ok: false,
                reason,
                note,
            },
        },
        HealthReply::Nothing => ReadingView::unsupported(),
    }
}

/// The health that an answer gives.
pub fn drive_health(reply: HealthReply) -> (r: Reading<DriveHealth>)
    ensures
        r.deep_view() == health_from(reply),
{
    match reply {
        HealthReply::Nvme(answer) => match answer {
            Ok(h) => Reading::value(DriveHealth::Nvme(h)),
            Err(e) => Reading::failed(e.describe()),
        },
        HealthReply::Ata(reading) => match reading {
            Reading::Value { value, .. } => Reading::value(DriveHealth::Ata(value)),
            Reading::Missing { reason, note, .. } => Reading::Missing { ok: false, reason, note },
        },
        HealthReply::Nothing => Reading::missing(Unavailable::NotSupportedByHardware),
    }
}

/// The report on a drive.
pub open spec fn drive_report(
    index: u32,
    descriptor: Option<DeviceDescriptorView>,
    health: ReadingView<DriveHealthView>,
) -> DriveReportView {
    match descriptor {
        Some(d) => DriveReportView {
            index,
            model: ReadingView::from_option(d.product),
            serial: ReadingView::from_option(d.serial),
            firmware: ReadingView::from_option(d.revision),
            bus_type: bus_name(d.bus_type),
            removable: d.removable,
            health,
        },
        None => DriveReportView {
            index,
            model: ReadingView::unsupported(),
            serial: ReadingView::unsupported(),
            firmware: ReadingView::unsupported(),
            bus_type: "Unknown"@,
            removable: false,
            health,
        },
    }
}

/// The report on a drive, from its descriptor and the answer to its health query.
pub fn probe_drive(index: u32, descriptor: Option<DeviceDescriptor>, reply: HealthReply) -> (r:
    DriveReport)
    ensures
        r.deep_view() == drive_report(index, descriptor.deep_view(), health_from(reply)),
{
    let health = drive_health(reply);
    match descriptor {
        Some(d) => DriveReport {
            index,
            model: Reading::from(d.product),
            serial: Reading::from(d.serial),
            firmware: Reading::from(d.revision),
            bus_type: String::from_str(bus_type_name(d.bus_type)),
            removable: d.removable,
            health,
        },
        None => DriveReport {
            index,
            model: Reading::unsupported(),
            serial: Reading::unsupported(),
            firmware: Reading::unsupported(),
            bus_type: String::from_str("Unknown"),
            removable: false,
            health,
        },
    }
}

// ---------------------------------------------------------------------------
// Laws
// ---------------------------------------------------------------------------

/// An absolute zero in the temperature field is "not reported", never a temperature, and a
/// temperature that is reported lies between -40 and 125 degrees.
pub proof fn a_reported_temperature_is_plausible(log: Seq<u8>)
    ensures
        log.len() >= 3 && le16(log, 1) == 0 ==> nvme_health(log).composite_temp_centi_c
            == ReadingView::<i32>::unsupported(),
        nvme_health(log).composite_temp_centi_c.get() matches Some(t) ==> -4000 <= t <= 12500,
{
}

/// A short log loses exactly the counters that it does not hold: a counter is a value if
/// and only if its low eight bytes are there.
pub proof fn a_short_log_only_loses_counters(log: Seq<u8>, off: int)
    ensures
        log_counter(log, off).get() is Some <==> off + 8 <= log.len(),
{
}

// ---------------------------------------------------------------------------
// From the bytes to the report
// ---------------------------------------------------------------------------

/// The number that eight bytes from `off` on write, the least significant first.
pub open spec fn eight_bytes(log: Seq<u8>, off: int) -> int {
    log[off] + 256 * log[off + 1] + 65536 * log[off + 2] + 16777216 * log[off + 3] + 4294967296
        * log[off + 4] + 1099511627776 * log[off + 5] + 281474976710656 * log[off + 6]
        + 72057594037927936 * log[off + 7]
}

/// A counter of the log: the number at its place, where the log reaches that far.
pub open spec fn counts(shown: ReadingView<u64>, log: Seq<u8>, off: int) -> bool {
    match shown.get() {
        Some(n) => off + 8 <= log.len() && n == eight_bytes(log, off),
        None => off + 8 > log.len() && shown.is_not_offered(),
    }
}

/// A byte of the log, where the log reaches that far.
pub open spec fn shows_byte(shown: ReadingView<u8>, log: Seq<u8>, off: int) -> bool {
    match shown.get() {
        Some(n) => off < log.len() && n == log[off],
        None => off >= log.len() && shown.is_not_offered(),
    }
}

/// What a health log says, field by field, each from its own place.
pub proof fn every_field_of_the_log_is_in_its_place(log: Seq<u8>)
    ensures
        ({
            let h = nvme_health(log);
            &&& log.len() > 0 ==> h.critical_warning == log[0]
            &&& log.len() == 0 ==> h.critical_warning == 0
            &&& shows_byte(h.available_spare_percent, log, 3)
            &&& shows_byte(h.available_spare_threshold_percent, log, 4)
            &&& shows_byte(h.percentage_used, log, 5)
            &&& counts(h.data_units_read, log, 32)
            &&& counts(h.data_units_written, log, 48)
            &&& counts(h.power_cycles, log, 112)
            &&& counts(h.power_on_hours, log, 128)
            &&& counts(h.unsafe_shutdowns, log, 144)
            &&& counts(h.media_errors, log, 160)
            &&& counts(h.error_log_entries, log, 176)
        }),
{
}

/// The temperature is the log's second and third byte, in Kelvin: 273.15 less in degrees, where
/// that lies between -40 and 125. The volume written is 512,000 bytes for each data unit.
pub proof fn units_of_the_log_are_converted(log: Seq<u8>)
    ensures
        ({
            let h = nvme_health(log);
            let kelvin = log[1] + 256 * log[2];
            let centi = 100 * kelvin - 27315;
            &&& log.len() >= 3 && kelvin != 0 && -4000 <= centi <= 12500
                ==> h.composite_temp_centi_c.get() == Some(centi as i32)
            &&& log.len() < 3 || kelvin == 0 ==> h.composite_temp_centi_c.is_not_offered()
            &&& log.len() >= 3 && kelvin != 0 && !(-4000 <= centi <= 12500)
                ==> h.composite_temp_centi_c.is_without(
                UnavailableView::ImplausibleValue(signed(kelvin - 273) + " C"@),
            )
            &&& log.len() >= 56 ==> h.bytes_written.get() == Some(
                (512_000 * eight_bytes(log, 48)) as u128,
            )
            &&& log.len() < 56 ==> h.bytes_written.is_not_offered()
        }),
{
}

/// The log page in a reply: what was written from byte 48 on, up to 512 bytes.
pub proof fn the_log_page_follows_the_header(reply: Seq<u8>, written: u32, k: int)
    requires
        reply.len() == 624,
        240 <= written,
        0 <= k < 512,
    ensures
        log_page(reply, written).len() == if written >= 560 {
            512
        } else {
            written - 48
        },
        k < log_page(reply, written).len() ==> log_page(reply, written)[k] == reply[48 + k],
{
}

/// What the health query asks for: property 50, a standard query; of the NVMe protocol, a log
/// page, number 2, of 512 bytes, to be put 40 bytes behind the start of that request.
pub proof fn the_health_query_asks_for_the_log()
    ensures
        ({
            let q = nvme_request_bytes();
            &&& q.len() == 48
            &&& le32(q, 0) == 50 && le32(q, 4) == 0
            &&& le32(q, 8) == 3 && le32(q, 12) == 2 && le32(q, 16) == 2 && le32(q, 20) == 0
            &&& le32(q, 24) == 40 && le32(q, 28) == 512
            &&& forall|k: int| 32 <= k < 48 ==> q[k] == 0
        }),
{
}

/// A text of the descriptor runs from its offset to the next NUL or to the end, without the
/// blanks around it.
pub proof fn descriptor_texts_end_at_a_nul(d: Seq<u8>, off: u32, e: int)
    requires
        off <= e <= d.len(),
        forall|k: int| off <= k < e ==> d[k] != 0,
        e == d.len() || d[e] == 0,
    ensures
        ({
            let text = trimmed(utf8_lossy(d.subrange(off as int, e)));
            descriptor_text(d, off) == if 0 < off < d.len() && text.len() > 0 {
                Some(text)
            } else {
                None
            }
        }),
{
    if 0 < off < d.len() {
        let tail = d.skip(off as int);
        assert forall|k: int| 0 <= k < e - off implies tail[k] != 0 by {
            assert(tail[k] == d[off + k]);
        }
        crate::probes::firmware::the_first_nul_is_first(tail, e - off);
        assert(tail.take(e - off) =~= d.subrange(off as int, e));
    }
}

/// What a descriptor says: the bytes at 16, 20, 24 and 28 give the places of the model, the
/// revision and the serial number, and the bus; a byte other than 0 at 10 says that the medium
/// can be removed. Fewer than 36 bytes are no descriptor.
pub proof fn every_field_of_the_descriptor_is_in_its_place(d: Seq<u8>)
    ensures
        descriptor_of(d) is Some <==> d.len() >= 36,
        descriptor_of(d) matches Some(v) ==> {
            &&& v.product == descriptor_text(d, le32(d, 16))
            &&& v.revision == descriptor_text(d, le32(d, 20))
            &&& v.serial == descriptor_text(d, le32(d, 24))
            &&& v.bus_type == d[28] + 256 * d[29] + 65536 * d[30] + 16777216 * d[31]
            &&& v.removable <==> d[10] != 0
        },
{
}

/// The bus codes that have a name of their own.
pub open spec fn has_bus_name(v: u32) -> bool {
    1 <= v <= 13 || 17 <= v <= 19
}

/// Buses are told apart: two that are known have two different names, and none of them is called
/// unknown; all others are.
pub proof fn buses_are_told_apart(a: u32, b: u32)
    ensures
        has_bus_name(a) && has_bus_name(b) && a != b ==> bus_name(a) != bus_name(b),
        has_bus_name(a) <==> bus_name(a) != "Unknown"@,
{
    reveal_strlit("SCSI");
    reveal_strlit("ATAPI");
    reveal_strlit("ATA");
    reveal_strlit("IEEE 1394");
    reveal_strlit("SSA");
    reveal_strlit("Fibre Channel");
    reveal_strlit("USB");
    reveal_strlit("RAID");
    reveal_strlit("iSCSI");
    reveal_strlit("SAS");
    reveal_strlit("SATA");
    reveal_strlit("SD");
    reveal_strlit("MMC");
    reveal_strlit("NVMe");
    reveal_strlit("SCM");
    reveal_strlit("UFS");
    reveal_strlit("Unknown");
    let x = bus_name(a);
    let y = bus_name(b);
    assert("Unknown"@.len() == 7);
    if has_bus_name(a) && has_bus_name(b) && a != b {
        assert(x.len() != y.len() || x[0] != y[0] || x[x.len() - 1] != y[y.len() - 1]);
    }
}

/// A drive is asked in the command set of its bus: the one whose name is NVMe for its log, those
/// whose names are ATAPI, ATA and SATA for SMART, and every other for nothing.
pub proof fn the_bus_decides_the_question(bus: u32)
    ensures
        query_for(bus) == HealthQuery::Nvme <==> bus_name(bus) == "NVMe"@,
        query_for(bus) == HealthQuery::Ata <==> bus_name(bus) == "ATAPI"@ || bus_name(bus)
            == "ATA"@ || bus_name(bus) == "SATA"@,
        query_for(0x11) == HealthQuery::Nvme && query_for(0x0B) == HealthQuery::Ata,
{
    buses_are_told_apart(bus, 0x11);
    buses_are_told_apart(bus, 0x02);
    buses_are_told_apart(bus, 0x03);
    buses_are_told_apart(bus, 0x0B);
    buses_are_told_apart(0x11, 0x02);
    buses_are_told_apart(0x02, 0x03);
    buses_are_told_apart(0x03, 0x0B);
    buses_are_told_apart(0x0B, 0x11);
}

/// A drive's report shows its descriptor's texts where they are known, and the health that came
/// back; without a descriptor only the index and the health are known.
pub proof fn a_drive_is_reported_as_described(
    index: u32,
    descriptor: Option<DeviceDescriptorView>,
    health: ReadingView<DriveHealthView>,
)
    ensures
        ({
            let r = drive_report(index, descriptor, health);
            &&& r.index == index
            &&& r.health == health
            &&& match descriptor {
                Some(d) => r.model.shows(d.product) && r.serial.shows(d.serial)
                    && r.firmware.shows(d.revision) && r.bus_type == bus_name(d.bus_type)
                    && r.removable == d.removable,
                None => r.model.is_not_offered() && r.serial.is_not_offered() && r.firmware.is_not_offered()
                    && r.bus_type == "Unknown"@ && !r.removable,
            }
        }),
{
}

/// A health answer comes through as it is: a log or SMART data as the drive's health, and a
/// failure or a missing reading with its own reason.
pub proof fn health_answers_come_through(reply: HealthReply)
    ensures
        match reply {
            HealthReply::Nvme(Ok(h)) => health_from(reply).get() == Some(
                DriveHealthView::Nvme(h.deep_view()),
            ),
            HealthReply::Nvme(Err(e)) => health_from(reply) matches ReadingView::Missing {
                reason,
                ..
            } && reason == UnavailableView::QueryFailed(error_text(e.context@, e.code)),
            HealthReply::Ata(r) => match r.deep_view() {
                ReadingView::Value { value, .. } => health_from(reply).get() == Some(
                    DriveHealthView::Ata(value),
                ),
                ReadingView::Missing { reason, note, .. } => health_from(
                    reply,
                ) matches ReadingView::Missing { reason: kept, note: text, .. } && kept == reason
                    && text == note,
            },
            HealthReply::Nothing => health_from(reply) matches ReadingView::Missing { reason, .. }
                && reason == UnavailableView::NotSupportedByHardware,
        },
{
}

/// The name of a bus stands for its code, and for no other.
pub proof fn bus_names_stand_for_their_codes(bus: u32)
    ensures
        bus_name(bus) == "SCSI"@ <==> bus == 0x01,
        bus_name(bus) == "ATAPI"@ <==> bus == 0x02,
        bus_name(bus) == "ATA"@ <==> bus == 0x03,
        bus_name(bus) == "IEEE 1394"@ <==> bus == 0x04,
        bus_name(bus) == "SSA"@ <==> bus == 0x05,
        bus_name(bus) == "Fibre Channel"@ <==> bus == 0x06,
        bus_name(bus) == "USB"@ <==> bus == 0x07,
        bus_name(bus) == "RAID"@ <==> bus == 0x08,
        bus_name(bus) == "iSCSI"@ <==> bus == 0x09,
        bus_name(bus) == "SAS"@ <==> bus == 0x0A,
        bus_name(bus) == "SATA"@ <==> bus == 0x0B,
        bus_name(bus) == "SD"@ <==> bus == 0x0C,
        bus_name(bus) == "MMC"@ <==> bus == 0x0D,
        bus_name(bus) == "NVMe"@ <==> bus == 0x11,
        bus_name(bus) == "SCM"@ <==> bus == 0x12,
        bus_name(bus) == "UFS"@ <==> bus == 0x13,
{
    buses_are_told_apart(bus, 0x01);
    buses_are_told_apart(0x01, bus);
    buses_are_told_apart(bus, 0x02);
    buses_are_told_apart(0x02, bus);
    buses_are_told_apart(bus, 0x03);
    buses_are_told_apart(0x03, bus);
    buses_are_told_apart(bus, 0x04);
    buses_are_told_apart(0x04, bus);
    buses_are_told_apart(bus, 0x05);
    buses_are_told_apart(0x05, bus);
    buses_are_told_apart(bus, 0x06);
    buses_are_told_apart(0x06, bus);
    buses_are_told_apart(bus, 0x07);
    buses_are_told_apart(0x07, bus);
    buses_are_told_apart(bus, 0x08);
    buses_are_told_apart(0x08, bus);
    buses_are_told_apart(bus, 0x09);
    buses_are_told_apart(0x09, bus);
    buses_are_told_apart(bus, 0x0A);
    buses_are_told_apart(0x0A, bus);
    buses_are_told_apart(bus, 0x0B);
    buses_are_told_apart(0x0B, bus);
    buses_are_told_apart(bus, 0x0C);
    buses_are_told_apart(0x0C, bus);
    buses_are_told_apart(bus, 0x0D);
    buses_are_told_apart(0x0D, bus);
    buses_are_told_apart(bus, 0x11);
    buses_are_told_apart(0x11, bus);
    buses_are_told_apart(bus, 0x12);
    buses_are_told_apart(0x12, bus);
    buses_are_told_apart(bus, 0x13);
    buses_are_told_apart(0x13, bus);
}

/// The question for a drive's descriptor is the standard query of its first property: sixteen
/// bytes, all of them zero.
pub proof fn the_descriptor_query_is_all_zero(r: Vec<u8>)
    requires
        call_ensures(descriptor_request, (), r),
    ensures
        r@.len() == 16,
        forall|i: int| 0 <= i < 16 ==> r@[i] == 0,
{
}

} // verus!
