//! SATA/ATA SMART: the requests that read it, and the decoding of what comes back.
//!
//! Only `SMART READ DATA` (0xB0/0xD0) is ever asked for: a data-in command that cannot
//! alter the drive.
//!
//! SMART "raw" values are vendor-defined. Power-on hours (attribute 9) and power cycles
//! (12) are consistent enough across vendors to report directly; total LBAs written (241)
//! is usually counted in 512-byte sectors but some vendors use other units, so a value that
//! implies an absurd write volume is rejected rather than reported.
use vstd::prelude::*;

use crate::bytes::{le48, push_zeros, read_le48};
use crate::model::{Reading, ReadingView, Unavailable, UnavailableView};
use crate::text::number::{dec, push_dec};
use crate::win::{error_text, WinError};

verus! {

// ---------------------------------------------------------------------------
// Kernel ABI (ntddscsi.h)
// ---------------------------------------------------------------------------

pub const ATA_FLAGS_DRDY_REQUIRED: u8 = 0x01;

pub const ATA_FLAGS_DATA_IN: u8 = 0x02;

pub const SMART_CMD: u8 = 0xB0;

pub const SMART_READ_DATA: u8 = 0xD0;

/// The magic LBA mid/high pair that identifies a SMART command.
pub const SMART_LBA_MID: u8 = 0x4F;

pub const SMART_LBA_HIGH: u8 = 0xC2;

pub const SECTOR_SIZE: usize = 512;

/// Size of `IDEREGS`, the ATA task-file registers.
pub const IDE_REGS_SIZE: usize = 8;

/// Size of `SENDCMDINPARAMS`, without the trailing flexible buffer.
pub const SEND_CMD_IN_SIZE: usize = 32;

/// Size of the `SENDCMDOUTPARAMS` header, before the data.
pub const SEND_CMD_OUT_HEADER_SIZE: usize = 16;

/// Size of `ATA_PASS_THROUGH_EX`.
pub const ATA_PASS_THROUGH_SIZE: usize = 56;

// ---------------------------------------------------------------------------
// Public shape
// ---------------------------------------------------------------------------

#[derive(Debug, Clone)]
pub struct SmartAttribute {
    pub id: u8,
    pub name: String,
    /// Normalised value, 0-253. Higher is healthier for most attributes.
    pub current: u8,
    pub worst: u8,
    pub raw: u64,
}

/// The mathematical model of [`SmartAttribute`].
#[verifier::ext_equal]
pub struct SmartAttributeView {
    pub id: u8,
    pub name: Seq<char>,
    pub current: u8,
    pub worst: u8,
    pub raw: u64,
}

impl DeepView for SmartAttribute {
    type V = SmartAttributeView;

    open spec fn deep_view(&self) -> SmartAttributeView {
        SmartAttributeView {
            id: self.id,
            name: self.name@,
            current: self.current,
            worst: self.worst,
            raw: self.raw,
        }
    }
}

#[derive(Debug, Clone)]
pub struct AtaHealth {
    pub power_on_hours: Reading<u64>,
    pub power_cycles: Reading<u64>,
    /// Non-zero means the drive has already remapped failing sectors.
    pub reallocated_sectors: Reading<u64>,
    /// Sectors the drive cannot read but has not yet remapped. The most urgent signal.
    pub pending_sectors: Reading<u64>,
    pub uncorrectable_sectors: Reading<u64>,
    /// In whole degrees Celsius.
    pub temperature_c: Reading<u8>,
    /// SSD endurance remaining, from the normalised wear attribute.
    pub life_remaining_percent: Reading<u8>,
    pub bytes_written: Reading<u64>,
    pub attributes: Vec<SmartAttribute>,
}

/// The mathematical model of [`AtaHealth`].
#[verifier::ext_equal]
pub struct AtaHealthView {
    pub power_on_hours: ReadingView<u64>,
    pub power_cycles: ReadingView<u64>,
    pub reallocated_sectors: ReadingView<u64>,
    pub pending_sectors: ReadingView<u64>,
    pub uncorrectable_sectors: ReadingView<u64>,
    pub temperature_c: ReadingView<u8>,
    pub life_remaining_percent: ReadingView<u8>,
    pub bytes_written: ReadingView<u64>,
    pub attributes: Seq<SmartAttributeView>,
}

impl DeepView for AtaHealth {
    type V = AtaHealthView;

    open spec fn deep_view(&self) -> AtaHealthView {
        AtaHealthView {
            power_on_hours: self.power_on_hours.deep_view(),
            power_cycles: self.power_cycles.deep_view(),
            reallocated_sectors: self.reallocated_sectors.deep_view(),
            pending_sectors: self.pending_sectors.deep_view(),
            uncorrectable_sectors: self.uncorrectable_sectors.deep_view(),
            temperature_c: self.temperature_c.deep_view(),
            life_remaining_percent: self.life_remaining_percent.deep_view(),
            bytes_written: self.bytes_written.deep_view(),
            attributes: self.attributes.deep_view(),
        }
    }
}

/// The common name of an attribute.
pub open spec fn name_of(id: u8) -> Seq<char> {
    match id {
        1 => "Raw Read Error Rate"@,
        3 => "Spin-Up Time"@,
        4 => "Start/Stop Count"@,
        5 => "Reallocated Sectors Count"@,
        7 => "Seek Error Rate"@,
        9 => "Power-On Hours"@,
        10 => "Spin Retry Count"@,
        12 => "Power Cycle Count"@,
        170 => "Available Reserved Space"@,
        171 => "Program Fail Count"@,
        172 => "Erase Fail Count"@,
        173 => "Wear Leveling Count"@,
        174 => "Unexpected Power Loss Count"@,
        175 => "Program Fail Count (Chip)"@,
        177 => "Wear Leveling Count"@,
        179 => "Used Reserved Block Count"@,
        181 => "Program Fail Count (Total)"@,
        182 => "Erase Fail Count (Total)"@,
        183 => "Runtime Bad Block"@,
        184 => "End-to-End Error"@,
        187 => "Reported Uncorrectable Errors"@,
        188 => "Command Timeout"@,
        190 => "Airflow Temperature"@,
        194 => "Temperature"@,
        195 => "Hardware ECC Recovered"@,
        196 => "Reallocation Event Count"@,
        197 => "Current Pending Sector Count"@,
        198 => "Offline Uncorrectable Sector Count"@,
        199 => "UltraDMA CRC Error Count"@,
        201 => "Soft Read Error Rate"@,
        202 => "Data Address Mark Errors"@,
        231 => "SSD Life Left"@,
        232 => "Available Reserved Space"@,
        233 => "Media Wearout Indicator"@,
        241 => "Total LBAs Written"@,
        242 => "Total LBAs Read"@,
        _ => "Vendor Specific"@,
    }
}

/// Well-known attribute IDs. Names follow common industry usage.
pub fn attribute_name(id: u8) -> (r: &'static str)
    ensures
        r@ == name_of(id),
{
    match id {
        1 => "Raw Read Error Rate",
        3 => "Spin-Up Time",
        4 => "Start/Stop Count",
        5 => "Reallocated Sectors Count",
        7 => "Seek Error Rate",
        9 => "Power-On Hours",
        10 => "Spin Retry Count",
        12 => "Power Cycle Count",
        170 => "Available Reserved Space",
        171 => "Program Fail Count",
        172 => "Erase Fail Count",
        173 => "Wear Leveling Count",
        174 => "Unexpected Power Loss Count",
        175 => "Program Fail Count (Chip)",
        177 => "Wear Leveling Count",
        179 => "Used Reserved Block Count",
        181 => "Program Fail Count (Total)",
        182 => "Erase Fail Count (Total)",
        183 => "Runtime Bad Block",
        184 => "End-to-End Error",
        187 => "Reported Uncorrectable Errors",
        188 => "Command Timeout",
        190 => "Airflow Temperature",
        194 => "Temperature",
        195 => "Hardware ECC Recovered",
        196 => "Reallocation Event Count",
        197 => "Current Pending Sector Count",
        198 => "Offline Uncorrectable Sector Count",
        199 => "UltraDMA CRC Error Count",
        201 => "Soft Read Error Rate",
        202 => "Data Address Mark Errors",
        231 => "SSD Life Left",
        232 => "Available Reserved Space",
        233 => "Media Wearout Indicator",
        241 => "Total LBAs Written",
        242 => "Total LBAs Read",
        _ => "Vendor Specific",
    }
}

// ---------------------------------------------------------------------------
// Decoding the SMART data sector
// ---------------------------------------------------------------------------

/// How many of the 30 attribute slots a sector holds in full. The table starts at offset 2
/// and a slot takes 12 bytes.
pub open spec fn slot_count(sector: Seq<u8>) -> int {
    if sector.len() < 2 {
        0
    } else if (sector.len() - 2) / 12 > 30 {
        30
    } else {
        (sector.len() - 2) / 12
    }
}

/// The attribute in slot `i`: its id, normalised and worst values, and its raw value in six
/// bytes, least significant first.
pub open spec fn slot(sector: Seq<u8>, i: int) -> SmartAttributeView {
    let off = 2 + 12 * i;
    SmartAttributeView {
        id: sector[off],
        name: name_of(sector[off]),
        current: sector[off + 3],
        worst: sector[off + 4],
        raw: le48(sector, off + 5),
    }
}

/// The attributes in the first `n` slots, without the unused ones (id 0).
pub open spec fn used_slots(sector: Seq<u8>, n: int) -> Seq<SmartAttributeView>
    decreases n,
{
    if n <= 0 {
        seq![]
    } else if slot(sector, n - 1).id == 0 {
        used_slots(sector, n - 1)
    } else {
        used_slots(sector, n - 1).push(slot(sector, n - 1))
    }
}

/// The first attribute with an id.
pub open spec fn attribute(attrs: Seq<SmartAttributeView>, id: u8) -> Option<SmartAttributeView>
    decreases attrs.len(),
{
    if attrs.len() == 0 {
        None
    } else if attrs[0].id == id {
        Some(attrs[0])
    } else {
        attribute(attrs.drop_first(), id)
    }
}

/// The raw value of an attribute.
pub open spec fn raw_of(attrs: Seq<SmartAttributeView>, id: u8) -> Option<u64> {
    match attribute(attrs, id) {
        Some(a) => Some(a.raw),
        None => None,
    }
}

/// The normalised value of an attribute.
pub open spec fn norm_of(attrs: Seq<SmartAttributeView>, id: u8) -> Option<u8> {
    match attribute(attrs, id) {
        Some(a) => Some(a.current),
        None => None,
    }
}

/// The first of two readings that is there.
pub open spec fn either<T>(a: Option<T>, b: Option<T>) -> Option<T> {
    match a {
        Some(v) => Some(v),
        None => b,
    }
}

/// A counter that occupies the low 32 bits; some drives pack other data above.
pub open spec fn low_counter(raw: Option<u64>) -> ReadingView<u64> {
    match raw {
        Some(r) => ReadingView::value((r as int % 0x1_0000_0000) as u64),
        None => ReadingView::unsupported(),
    }
}

/// The temperature in the low byte of a raw value, where it is between 1 and 110 degrees.
pub open spec fn temperature_from(raw: Option<u64>) -> ReadingView<u8> {
    match raw {
        Some(r) => {
            let t = r as int % 256;
            if 1 <= t <= 110 {
                ReadingView::value(t as u8)
            } else {
                ReadingView::missing(UnavailableView::ImplausibleValue(dec(t as nat) + " C"@))
            }
        },
        None => ReadingView::unsupported(),
    }
}

/// The endurance left, from a normalised value that counts down from 100. A spinning disk
/// has no such figure, and 253 is the "not populated" value.
pub open spec fn life_from(norm: Option<u8>) -> ReadingView<u8> {
    match norm {
        Some(v) => if v <= 100 {
            ReadingView::value(v)
        } else {
            ReadingView::unsupported()
        },
        None => ReadingView::unsupported(),
    }
}

/// The largest write volume that a consumer drive is believed to have reached, in bytes:
/// 20,000 TB.
pub const IMPLAUSIBLE_BYTES: u64 = 20_000_000_000_000_000;

/// The volume written, from a count of 512-byte sectors. The unit is vendor-defined, so a
/// count that implies a volume no consumer drive reaches is rejected.
pub open spec fn written_from(lbas: Option<u64>) -> ReadingView<u64> {
    match lbas {
        Some(n) => if n == 0 {
            ReadingView::unsupported()
        } else if n * 512 < IMPLAUSIBLE_BYTES {
            ReadingView::value((n * 512) as u64)
        } else {
            ReadingView::missing(
                UnavailableView::ImplausibleValue("attribute 241 uses a vendor-specific unit"@),
            )
        },
        None => ReadingView::unsupported(),
    }
}

/// The health figures that a set of attributes gives. Attribute 194 is the preferred
/// temperature and 190 (airflow) the fallback; endurance comes from the first of 231, 233,
/// 177 and 173 that is there.
pub open spec fn health_of(attrs: Seq<SmartAttributeView>) -> AtaHealthView {
    AtaHealthView {
        power_on_hours: low_counter(raw_of(attrs, 9)),
        power_cycles: low_counter(raw_of(attrs, 12)),
        reallocated_sectors: ReadingView::from_option(raw_of(attrs, 5)),
        pending_sectors: ReadingView::from_option(raw_of(attrs, 197)),
        uncorrectable_sectors: ReadingView::from_option(raw_of(attrs, 198)),
        temperature_c: temperature_from(either(raw_of(attrs, 194), raw_of(attrs, 190))),
        life_remaining_percent: life_from(
            either(
                either(either(norm_of(attrs, 231), norm_of(attrs, 233)), norm_of(attrs, 177)),
                norm_of(attrs, 173),
            ),
        ),
        bytes_written: written_from(raw_of(attrs, 241)),
        attributes: attrs,
    }
}

/// The health figures in a SMART data sector.
pub open spec fn smart_health(sector: Seq<u8>) -> AtaHealthView {
    health_of(used_slots(sector, slot_count(sector)))
}

fn read_attributes(sector: &[u8]) -> (attributes: Vec<SmartAttribute>)
    ensures
        attributes.deep_view() == used_slots(sector@, slot_count(sector@)),
{
    let mut attributes: Vec<SmartAttribute> = Vec::new();
    // Attribute table: 30 entries of 12 bytes, starting at offset 2.
    let mut i: usize = 0;
    while i < 30 && sector.len() >= 14 && 12 * i <= sector.len() - 14
        invariant
            i <= 30,
            i <= slot_count(sector@),
            attributes.deep_view() == used_slots(sector@, i as int),
        ensures
            i == slot_count(sector@),
        decreases 30 - i,
    {
        let off = 2 + 12 * i;
        let id = sector[off];
        let ghost before = attributes.deep_view();
        // ID 0 marks an unused slot.
        if id != 0 {
            let a = SmartAttribute {
                id,
                name: String::from_str(attribute_name(id)),
                current: sector[off + 3],
                worst: sector[off + 4],
                raw: read_le48(sector, off + 5),
            };
            let ghost added = a.deep_view();
            attributes.push(a);
            assert(added == slot(sector@, i as int));
            assert(attributes.deep_view() == before.push(added));
        }
        i += 1;
    }
    attributes
}

fn find_attribute(attrs: &Vec<SmartAttribute>, id: u8) -> (r: Option<&SmartAttribute>)
    ensures
        r.deep_view() == attribute(attrs.deep_view(), id),
{
    let ghost all = attrs.deep_view();
    let mut i: usize = 0;
    assert(all.skip(0) == all);
    while i < attrs.len()
        invariant
            i <= attrs.len(),
            all == attrs.deep_view(),
            attribute(all, id) == attribute(all.skip(i as int), id),
        decreases attrs.len() - i,
    {
        if attrs[i].id == id {
            return Some(&attrs[i]);
        }
        assert(all.skip(i as int).drop_first() == all.skip(i + 1));
        i += 1;
    }
    None
}

fn raw_value(attrs: &Vec<SmartAttribute>, id: u8) -> (r: Option<u64>)
    ensures
        r == raw_of(attrs.deep_view(), id),
{
    match find_attribute(attrs, id) {
        Some(a) => Some(a.raw),
        None => None,
    }
}

fn norm_value(attrs: &Vec<SmartAttribute>, id: u8) -> (r: Option<u8>)
    ensures
        r == norm_of(attrs.deep_view(), id),
{
    match find_attribute(attrs, id) {
        Some(a) => Some(a.current),
        None => None,
    }
}

fn first_of<T>(a: Option<T>, b: Option<T>) -> (r: Option<T>)
    ensures
        r == either(a, b),
{
    match a {
        Some(v) => Some(v),
        None => b,
    }
}

fn counter(raw: Option<u64>) -> (r: Reading<u64>)
    ensures
        r.deep_view() == low_counter(raw),
{
    match raw {
        Some(r) => Reading::value(r % 0x1_0000_0000),
        None => Reading::unsupported(),
    }
}

fn temperature(raw: Option<u64>) -> (r: Reading<u8>)
    ensures
        r.deep_view() == temperature_from(raw),
{
    match raw {
        Some(r) => {
            let t = (r % 256) as u8;
            if 1 <= t && t <= 110 {
                Reading::value(t)
            } else {
                let mut s = String::new();
                push_dec(&mut s, t as u128);
                assert(s@ == dec(t as nat));
                s.append(" C");
                Reading::missing(Unavailable::ImplausibleValue(s))
            }
        },
        None => Reading::unsupported(),
    }
}

fn life(norm: Option<u8>) -> (r: Reading<u8>)
    ensures
        r.deep_view() == life_from(norm),
{
    match norm {
        Some(v) => if v <= 100 {
            Reading::value(v)
        } else {
            Reading::unsupported()
        },
        None => Reading::unsupported(),
    }
}

fn written(lbas: Option<u64>) -> (r: Reading<u64>)
    ensures
        r.deep_view() == written_from(lbas),
{
    match lbas {
        Some(n) => if n == 0 {
            Reading::unsupported()
        } else if n < IMPLAUSIBLE_BYTES / 512 {
            Reading::value(n * 512)
        } else {
            Reading::missing(
                Unavailable::ImplausibleValue(
                    String::from_str("attribute 241 uses a vendor-specific unit"),
                ),
            )
        },
        None => Reading::unsupported(),
    }
}

/// Decode the 512-byte SMART data sector into attributes and derived health figures. A
/// shorter sector gives the attributes that it holds in full.
pub fn parse_smart(sector: &[u8]) -> (h: AtaHealth)
    ensures
        h.deep_view() == smart_health(sector@),
{
    let attributes = read_attributes(sector);
    let wear = first_of(
        first_of(
            first_of(norm_value(&attributes, 231), norm_value(&attributes, 233)),
            norm_value(&attributes, 177),
        ),
        norm_value(&attributes, 173),
    );
    AtaHealth {
        power_on_hours: counter(raw_value(&attributes, 9)),
        power_cycles: counter(raw_value(&attributes, 12)),
        reallocated_sectors: Reading::from(raw_value(&attributes, 5)),
        pending_sectors: Reading::from(raw_value(&attributes, 197)),
        uncorrectable_sectors: Reading::from(raw_value(&attributes, 198)),
        temperature_c: temperature(
            first_of(raw_value(&attributes, 194), raw_value(&attributes, 190)),
        ),
        life_remaining_percent: life(wear),
        bytes_written: written(raw_value(&attributes, 241)),
        attributes,
    }
}

// ---------------------------------------------------------------------------
// Reading the sector
// ---------------------------------------------------------------------------

/// What to do next to read a drive's SMART data.
#[derive(Debug)]
pub enum SmartStep {
    /// Issue the legacy request.
    ReadLegacy,
    /// The legacy request failed; issue the pass-through request.
    ReadPassThrough { legacy: WinError },
    /// Nothing more to do.
    Done(Reading<AtaHealth>),
}

/// Opening the drive needs elevation.
pub const ACCESS_DENIED: u32 = 5;

/// The error means that this controller will not carry SMART: invalid function, not
/// supported, invalid parameter, or revision mismatch.
pub open spec fn means_unsupported(code: u32) -> bool {
    code == 1 || code == 50 || code == 87 || code == 1306
}

fn is_unsupported(code: u32) -> (r: bool)
    ensures
        r == means_unsupported(code),
{
    code == 1 || code == 50 || code == 87 || code == 1306
}

/// What a pair of transport failures means for the report.
pub open spec fn failure_of(
    legacy: Seq<char>,
    legacy_code: u32,
    passthrough: Seq<char>,
    passthrough_code: u32,
) -> UnavailableView {
    if legacy_code == ACCESS_DENIED || passthrough_code == ACCESS_DENIED {
        UnavailableView::RequiresElevation
    } else if means_unsupported(legacy_code) && means_unsupported(passthrough_code) {
        UnavailableView::NotSupportedByHardware
    } else {
        UnavailableView::QueryFailed(
            "legacy: "@ + error_text(legacy, legacy_code) + "; pass-through: "@ + error_text(
                passthrough,
                passthrough_code,
            ),
        )
    }
}

/// The first step for a drive, from the outcome of opening it.
pub fn after_open(opened: &Result<(), WinError>) -> (step: SmartStep)
    ensures
        match opened {
            Ok(_) => step is ReadLegacy,
            Err(e) => step matches SmartStep::Done(r) && r.lacks(
                if e.code == ACCESS_DENIED {
                    UnavailableView::RequiresElevation
                } else {
                    UnavailableView::QueryFailed(error_text(e.context@, e.code))
                },
            ),
        },
{
    match opened {
        Ok(_) => SmartStep::ReadLegacy,
        Err(e) => if e.code == ACCESS_DENIED {
            SmartStep::Done(Reading::missing(Unavailable::RequiresElevation))
        } else {
            SmartStep::Done(Reading::failed(e.describe()))
        },
    }
}

/// The step after the legacy request. Drivers disagree about which transport they accept,
/// so a failure here leads on to the other one.
pub fn after_legacy(read: Result<Vec<u8>, WinError>) -> (step: SmartStep)
    ensures
        match read {
            Ok(sector) => step matches SmartStep::Done(r) && r.deep_view() == ReadingView::value(
                smart_health(sector@),
            ),
            Err(e) => step == (SmartStep::ReadPassThrough { legacy: e }),
        },
{
    match read {
        Ok(sector) => SmartStep::Done(Reading::value(parse_smart(sector.as_slice()))),
        Err(e) => SmartStep::ReadPassThrough { legacy: e },
    }
}

/// The reading after the pass-through request, which follows a failed legacy request.
pub fn after_passthrough(legacy: &WinError, read: &Result<Vec<u8>, WinError>) -> (r: Reading<
    AtaHealth,
>)
    ensures
        match read {
            Ok(sector) => r.deep_view() == ReadingView::value(smart_health(sector@)),
            Err(e) => r.lacks(failure_of(legacy.context@, legacy.code, e.context@, e.code)),
        },
{
    match read {
        Ok(sector) => Reading::value(parse_smart(sector.as_slice())),
        Err(e) => classify_failure(legacy, e),
    }
}

/// Decide what a pair of transport failures means for the report.
pub fn classify_failure(legacy: &WinError, passthrough: &WinError) -> (r: Reading<AtaHealth>)
    ensures
        r.lacks(
            failure_of(legacy.context@, legacy.code, passthrough.context@, passthrough.code),
        ),
{
    if legacy.code == ACCESS_DENIED || passthrough.code == ACCESS_DENIED {
        return Reading::missing(Unavailable::RequiresElevation);
    }
    if is_unsupported(legacy.code) && is_unsupported(passthrough.code) {
        return Reading::missing(Unavailable::NotSupportedByHardware);
    }
    let mut s = String::from_str("legacy: ");
    s.append(legacy.describe().as_str());
    s.append("; pass-through: ");
    s.append(passthrough.describe().as_str());
    Reading::failed(s)
}

/// The `SENDCMDINPARAMS` of a legacy SMART read: the buffer size, the task-file registers,
/// then zeros. The drive number is relative to the handle, which already names one drive.
pub open spec fn legacy_request_bytes() -> Seq<u8> {
    seq![
        0u8, 2u8, 0u8, 0u8,
        SMART_READ_DATA, 1u8, 1u8, SMART_LBA_MID, SMART_LBA_HIGH, 0xA0u8, SMART_CMD, 0u8,
    ] + Seq::new(20, |i: int| 0u8)
}

/// The input of the legacy `SMART_RCV_DRIVE_DATA` request. 0xA0 is the master-device
/// selector that it expects.
pub fn legacy_request() -> (r: Vec<u8>)
    ensures
        r@ == legacy_request_bytes(),
        r@.len() == SEND_CMD_IN_SIZE,
{
    let mut v: Vec<u8> = Vec::new();
    // Buffer size, 512.
    v.push(0);
    v.push(2);
    v.push(0);
    v.push(0);
    v.push(SMART_READ_DATA);
    v.push(1);
    v.push(1);
    v.push(SMART_LBA_MID);
    v.push(SMART_LBA_HIGH);
    v.push(0xA0);
    v.push(SMART_CMD);
    v.push(0);
    push_zeros(&mut v, 20);
    assert(v@ =~= legacy_request_bytes());
    v
}

/// The data of a reply that has a header before one sector, or the error that it is short.
pub open spec fn reply_sector(
    reply: Seq<u8>,
    header: int,
    r: Result<Vec<u8>, WinError>,
    written: u32,
    short: Seq<char>,
) -> bool {
    if written < header + SECTOR_SIZE {
        r matches Err(e) && e.context@ == short && e.code == written
    } else {
        r matches Ok(sector) && sector@ == reply.subrange(header, header + SECTOR_SIZE)
    }
}

/// The sector in the reply to the legacy request, of which the driver wrote `written` bytes.
pub fn legacy_sector(reply: &[u8], written: u32) -> (r: Result<Vec<u8>, WinError>)
    requires
        reply@.len() == SEND_CMD_OUT_HEADER_SIZE + SECTOR_SIZE,
    ensures
        reply_sector(
            reply@,
            SEND_CMD_OUT_HEADER_SIZE as int,
            r,
            written,
            "SMART_RCV_DRIVE_DATA short buffer"@,
        ),
{
    if (written as usize) < SEND_CMD_OUT_HEADER_SIZE + SECTOR_SIZE {
        return Err(WinError::new("SMART_RCV_DRIVE_DATA short buffer", written));
    }
    Ok(
        vstd::slice::slice_to_vec(
            vstd::slice::slice_subrange(
                reply,
                SEND_CMD_OUT_HEADER_SIZE,
                SEND_CMD_OUT_HEADER_SIZE + SECTOR_SIZE,
            ),
        ),
    )
}

/// The buffer of a pass-through SMART read: `ATA_PASS_THROUGH_EX`, then room for one
/// sector. Length 56, flags, transfer length 512, timeout 10 s, data offset 56, and the
/// task file of the command in the last eight bytes of the header.
pub open spec fn passthrough_request_bytes() -> Seq<u8> {
    seq![
        56u8, 0u8, 3u8, 0u8, 0u8, 0u8, 0u8, 0u8,
        0u8, 2u8, 0u8, 0u8, 0u8, 0u8, 0u8, 0u8,
        10u8, 0u8, 0u8, 0u8, 0u8, 0u8, 0u8, 0u8,
        0u8, 0u8, 0u8, 0u8, 0u8, 0u8, 0u8, 0u8,
        56u8, 0u8, 0u8, 0u8, 0u8, 0u8, 0u8, 0u8,
        0u8, 0u8, 0u8, 0u8, 0u8, 0u8, 0u8, 0u8,
        SMART_READ_DATA, 1u8, 0u8, SMART_LBA_MID, SMART_LBA_HIGH, 0u8, SMART_CMD, 0u8,
    ] + Seq::new(512, |i: int| 0u8)
}

/// The buffer of the `IOCTL_ATA_PASS_THROUGH` request, on a 64-bit machine. The request
/// header and the inbound data share it, so it is passed as both input and output.
pub fn passthrough_request() -> (r: Vec<u8>)
    ensures
        r@ == passthrough_request_bytes(),
        r@.len() == ATA_PASS_THROUGH_SIZE + SECTOR_SIZE,
{
    let mut v: Vec<u8> = Vec::new();
    v.push(56);
    v.push(0);
    v.push(ATA_FLAGS_DRDY_REQUIRED + ATA_FLAGS_DATA_IN);
    push_zeros(&mut v, 6);
    v.push(2);
    push_zeros(&mut v, 6);
    v.push(10);
    push_zeros(&mut v, 15);
    v.push(56);
    push_zeros(&mut v, 15);
    v.push(SMART_READ_DATA);
    v.push(1);
    v.push(0);
    v.push(SMART_LBA_MID);
    v.push(SMART_LBA_HIGH);
    v.push(0);
    v.push(SMART_CMD);
    v.push(0);
    push_zeros(&mut v, SECTOR_SIZE);
    assert(v@ =~= passthrough_request_bytes());
    v
}

/// The sector in the reply to the pass-through request, of which the driver wrote `written`
/// bytes.
pub fn passthrough_sector(reply: &[u8], written: u32) -> (r: Result<Vec<u8>, WinError>)
    requires
        reply@.len() == ATA_PASS_THROUGH_SIZE + SECTOR_SIZE,
    ensures
        reply_sector(
            reply@,
            ATA_PASS_THROUGH_SIZE as int,
            r,
            written,
            "ata pass-through returned short buffer"@,
        ),
{
    if (written as usize) < ATA_PASS_THROUGH_SIZE + SECTOR_SIZE {
        return Err(WinError::new("ata pass-through returned short buffer", written));
    }
    Ok(
        vstd::slice::slice_to_vec(
            vstd::slice::slice_subrange(
                reply,
                ATA_PASS_THROUGH_SIZE,
                ATA_PASS_THROUGH_SIZE + SECTOR_SIZE,
            ),
        ),
    )
}

// ---------------------------------------------------------------------------
// Laws
// ---------------------------------------------------------------------------

/// Unused slots never become attributes, every used one does, and there are never more
/// attributes than slots.
pub proof fn exactly_the_used_slots_are_reported(sector: Seq<u8>, n: int)
    requires
        0 <= n,
    ensures
        used_slots(sector, n).len() <= n,
        forall|i: int|
            0 <= i < used_slots(sector, n).len() ==> (#[trigger] used_slots(sector, n)[i]).id != 0,
        forall|i: int|
            0 <= i < n && (#[trigger] slot(sector, i)).id != 0 ==> used_slots(sector, n).contains(
                slot(sector, i),
            ),
    decreases n,
{
    if n > 0 {
        exactly_the_used_slots_are_reported(sector, n - 1);
        let before = used_slots(sector, n - 1);
        let all = used_slots(sector, n);
        assert forall|i: int| 0 <= i < n && (#[trigger] slot(sector, i)).id != 0 implies all.contains(
            slot(sector, i),
        ) by {
            if i < n - 1 {
                let k = choose|k: int| 0 <= k < before.len() && before[k] == slot(sector, i);
                assert(all[k] == slot(sector, i));
            } else {
                assert(all.last() == slot(sector, i));
            }
        }
    }
}

/// A derived figure that is reported is plausible: a temperature lies between 1 and 110
/// degrees, endurance between 0 and 100 percent, and a written volume is not zero and below
/// what no consumer drive reaches.
pub proof fn reported_figures_are_plausible(sector: Seq<u8>)
    ensures
        smart_health(sector).temperature_c.get() matches Some(t) ==> 1 <= t <= 110,
        smart_health(sector).life_remaining_percent.get() matches Some(p) ==> p <= 100,
        smart_health(sector).bytes_written.get() matches Some(b) ==> 0 < b < IMPLAUSIBLE_BYTES,
{
}

// ---------------------------------------------------------------------------
// From the bytes of a sector to the figures
// ---------------------------------------------------------------------------

/// The id byte of slot `j`: the table starts at byte 2, and a slot takes twelve bytes.
pub open spec fn id_byte(sector: Seq<u8>, j: int) -> u8 {
    sector[2 + 12 * j]
}

/// The sector holds slot `j` in full, and it is one of the thirty.
pub open spec fn has_slot(sector: Seq<u8>, j: int) -> bool {
    0 <= j < 30 && 2 + 12 * j + 12 <= sector.len()
}

/// Slot `i` is the first with this id.
pub open spec fn first_with(sector: Seq<u8>, id: u8, i: int) -> bool {
    has_slot(sector, i) && id_byte(sector, i) == id && forall|j: int|
        0 <= j < i ==> #[trigger] id_byte(sector, j) != id
}

/// No slot has this id.
pub open spec fn none_with(sector: Seq<u8>, id: u8) -> bool {
    forall|j: int| has_slot(sector, j) ==> #[trigger] id_byte(sector, j) != id
}

/// The number that `n` bytes from `off` on give, the least significant first.
pub open spec fn number_at(sector: Seq<u8>, off: int, n: nat) -> int
    decreases n,
{
    if n == 0 {
        0
    } else {
        sector[off] + 256 * number_at(sector, off + 1, (n - 1) as nat)
    }
}

proof fn four_and_six_bytes(sector: Seq<u8>, off: int)
    ensures
        number_at(sector, off, 6) == le48(sector, off),
        number_at(sector, off, 4) == le48(sector, off) as int % 0x1_0000_0000,
        sector[off] as int == le48(sector, off) as int % 256,
        0 <= number_at(sector, off, 4) <= u32::MAX,
{
    reveal_with_fuel(number_at, 7);
}

proof fn searching_behind(attrs: Seq<SmartAttributeView>, a: SmartAttributeView, id: u8)
    ensures
        attribute(attrs.push(a), id) == match attribute(attrs, id) {
            Some(b) => Some(b),
            None => if a.id == id {
                Some(a)
            } else {
                None
            },
        },
    decreases attrs.len(),
{
    if attrs.len() == 0 {
        assert(attrs.push(a).drop_first() =~= Seq::<SmartAttributeView>::empty());
        reveal_with_fuel(attribute, 2);
    } else {
        assert(attrs.push(a)[0] == attrs[0]);
        assert(attrs.push(a).drop_first() =~= attrs.drop_first().push(a));
        searching_behind(attrs.drop_first(), a, id);
    }
}

/// Among the first `n` slots the attribute with an id is the one in the first such slot.
proof fn first_slot_is_found(sector: Seq<u8>, n: int, id: u8, i: int)
    requires
        0 <= n,
        id != 0,
    ensures
        (0 <= i < n && id_byte(sector, i) == id && forall|j: int|
            0 <= j < i ==> #[trigger] id_byte(sector, j) != id) ==> attribute(
            used_slots(sector, n),
            id,
        ) == Some(slot(sector, i)),
        (forall|j: int| 0 <= j < n ==> #[trigger] id_byte(sector, j) != id) ==> attribute(
            used_slots(sector, n),
            id,
        ) is None,
    decreases n,
{
    if n > 0 {
        first_slot_is_found(sector, n - 1, id, i);
        searching_behind(used_slots(sector, n - 1), slot(sector, n - 1), id);
        assert(slot(sector, n - 1).id == id_byte(sector, n - 1));
    }
}

proof fn figures_from_slots(sector: Seq<u8>, id: u8, i: int)
    requires
        id != 0,
    ensures
        first_with(sector, id, i) ==> attribute(used_slots(sector, slot_count(sector)), id) == Some(
            slot(sector, i),
        ),
        none_with(sector, id) ==> attribute(used_slots(sector, slot_count(sector)), id) is None,
{
    first_slot_is_found(sector, slot_count(sector), id, i);
    assert forall|j: int| has_slot(sector, j) <==> 0 <= j < slot_count(sector) by {}
}

/// The endurance left is the normalised value of the first wear attribute that the drive has,
/// where that is at most 100, and no figure otherwise. All four ids count down alike, so none
/// is turned round. Of the four, 231 comes before 233, 233 before 177 and 177 before 173.
pub proof fn endurance_is_the_wear_byte(sector: Seq<u8>, id: u8, i: int)
    requires
        id == 231 || id == 233 || id == 177 || id == 173,
        first_with(sector, id, i),
        id != 231 ==> none_with(sector, 231),
        id == 177 || id == 173 ==> none_with(sector, 233),
        id == 173 ==> none_with(sector, 177),
    ensures
        ({
            let wear = sector[2 + 12 * i + 3];
            smart_health(sector).life_remaining_percent.shows(
                if wear <= 100 {
                    Some(wear)
                } else {
                    None
                },
            )
        }),
{
    figures_from_slots(sector, id, i);
    figures_from_slots(sector, 231, 0);
    figures_from_slots(sector, 233, 0);
    figures_from_slots(sector, 177, 0);
}

/// A drive without any of the four wear attributes has no endurance figure.
pub proof fn without_a_wear_attribute_there_is_no_endurance(sector: Seq<u8>)
    requires
        none_with(sector, 231),
        none_with(sector, 233),
        none_with(sector, 177),
        none_with(sector, 173),
    ensures
        smart_health(sector).life_remaining_percent.is_not_offered(),
{
    figures_from_slots(sector, 231, 0);
    figures_from_slots(sector, 233, 0);
    figures_from_slots(sector, 177, 0);
    figures_from_slots(sector, 173, 0);
}

/// The temperature is the lowest raw byte of attribute 194, or of 190 where the drive has no
/// 194, if it is between 1 and 110 degrees; otherwise there is none.
pub proof fn temperature_is_the_lowest_raw_byte(sector: Seq<u8>, i: int)
    ensures
        ({
            let t = sector[2 + 12 * i + 5];
            let shown = smart_health(sector).temperature_c;
            &&& first_with(sector, 194, i) || none_with(sector, 194) && first_with(sector, 190, i)
                ==> if 1 <= t <= 110 {
                shown.shows(Some(t))
            } else {
                shown.is_without(UnavailableView::ImplausibleValue(dec(t as nat) + " C"@))
            }
            &&& none_with(sector, 194) && none_with(sector, 190) ==> shown.is_not_offered()
        }),
{
    figures_from_slots(sector, 194, i);
    figures_from_slots(sector, 190, i);
    four_and_six_bytes(sector, 2 + 12 * i + 5);
}

/// Power-on hours (9) and power cycles (12) are the lowest four raw bytes of their attributes,
/// and are not there without them.
pub proof fn counters_are_four_raw_bytes(sector: Seq<u8>, i: int)
    ensures
        ({
            let n = number_at(sector, 2 + 12 * i + 5, 4) as u64;
            let h = smart_health(sector);
            &&& first_with(sector, 9, i) ==> h.power_on_hours.get() == Some(n)
            &&& first_with(sector, 12, i) ==> h.power_cycles.get() == Some(n)
            &&& none_with(sector, 9) ==> h.power_on_hours.is_not_offered()
            &&& none_with(sector, 12) ==> h.power_cycles.is_not_offered()
        }),
{
    figures_from_slots(sector, 9, i);
    figures_from_slots(sector, 12, i);
    four_and_six_bytes(sector, 2 + 12 * i + 5);
}

/// The counts of reallocated (5), pending (197) and uncorrectable (198) sectors are the six raw
/// bytes of their attributes, and are not there without them.
pub proof fn sector_counts_are_six_raw_bytes(sector: Seq<u8>, i: int)
    ensures
        ({
            let n = number_at(sector, 2 + 12 * i + 5, 6) as u64;
            let h = smart_health(sector);
            &&& first_with(sector, 5, i) ==> h.reallocated_sectors.get() == Some(n)
            &&& first_with(sector, 197, i) ==> h.pending_sectors.get() == Some(n)
            &&& first_with(sector, 198, i) ==> h.uncorrectable_sectors.get() == Some(n)
            &&& none_with(sector, 5) ==> h.reallocated_sectors.is_not_offered()
            &&& none_with(sector, 197) ==> h.pending_sectors.is_not_offered()
            &&& none_with(sector, 198) ==> h.uncorrectable_sectors.is_not_offered()
        }),
{
    figures_from_slots(sector, 5, i);
    figures_from_slots(sector, 197, i);
    figures_from_slots(sector, 198, i);
    four_and_six_bytes(sector, 2 + 12 * i + 5);
}

/// The volume written is 512 bytes for each sector that attribute 241 counts, where that is
/// below 20,000 TB. A count of nothing, or one beyond belief, gives no figure.
pub proof fn written_volume_is_counted_in_sectors(sector: Seq<u8>, i: int)
    ensures
        ({
            let n = number_at(sector, 2 + 12 * i + 5, 6);
            let shown = smart_health(sector).bytes_written;
            &&& first_with(sector, 241, i) ==> if n == 0 {
                shown.is_not_offered()
            } else if 512 * n < 20_000_000_000_000_000 {
                shown.shows(Some((512 * n) as u64))
            } else {
                shown matches ReadingView::Missing { reason, .. } && reason is ImplausibleValue
            }
            &&& none_with(sector, 241) ==> shown.is_not_offered()
        }),
{
    figures_from_slots(sector, 241, i);
    four_and_six_bytes(sector, 2 + 12 * i + 5);
}

/// The ids of the first `n` slots that are in use, in the order of the slots.
pub open spec fn used_ids(sector: Seq<u8>, n: nat) -> Seq<u8> {
    Seq::new(n, |j: int| sector[2 + 12 * j]).filter(|id: u8| id != 0)
}

/// An attribute of the report stands in a slot of the sector: its id, its normalised and worst
/// values and its raw value are the slot's bytes 0, 3, 4 and 5 to 10.
pub open spec fn stands_in_slot(a: SmartAttributeView, sector: Seq<u8>, j: int) -> bool {
    &&& a.id == sector[2 + 12 * j]
    &&& a.name == name_of(a.id)
    &&& a.current == sector[2 + 12 * j + 3]
    &&& a.worst == sector[2 + 12 * j + 4]
    &&& a.raw == number_at(sector, 2 + 12 * j + 5, 6)
}

/// The attribute stands in one of the first `n` slots.
pub open spec fn stands_in_some_slot(a: SmartAttributeView, sector: Seq<u8>, n: int) -> bool {
    exists|j: int| 0 <= j < n && #[trigger] stands_in_slot(a, sector, j)
}

proof fn attributes_stand_in_slots(sector: Seq<u8>, n: int)
    requires
        0 <= n,
    ensures
        used_slots(sector, n).len() == used_ids(sector, n as nat).len(),
        forall|k: int|
            0 <= k < used_slots(sector, n).len() ==> (#[trigger] used_slots(sector, n)[k]).id
                == used_ids(sector, n as nat)[k],
        forall|k: int|
            0 <= k < used_slots(sector, n).len() ==> stands_in_some_slot(
                #[trigger] used_slots(sector, n)[k],
                sector,
                n,
            ),
    decreases n,
{
    reveal(Seq::filter);
    let ids = Seq::new(n as nat, |j: int| sector[2 + 12 * j]);
    if n > 0 {
        attributes_stand_in_slots(sector, n - 1);
        let before = used_slots(sector, n - 1);
        let all = used_slots(sector, n);
        assert(ids.drop_last() =~= Seq::new((n - 1) as nat, |j: int| sector[2 + 12 * j]));
        four_and_six_bytes(sector, 2 + 12 * (n - 1) + 5);
        assert(stands_in_slot(slot(sector, n - 1), sector, n - 1));
        assert forall|k: int| 0 <= k < all.len() implies stands_in_some_slot(
            #[trigger] all[k],
            sector,
            n,
        ) by {
            if k < before.len() {
                assert(all[k] == before[k]);
                let j = choose|j: int|
                    0 <= j < n - 1 && #[trigger] stands_in_slot(before[k], sector, j);
                assert(stands_in_slot(all[k], sector, j));
            }
        }
    }
}

/// The attributes of the report are those of the slots in use, in their order: as many slots are
/// read as the sector holds in full, up to thirty.
pub proof fn attributes_are_the_slots_in_use(sector: Seq<u8>, n: nat)
    requires
        n <= 30,
        n == 0 || 2 + 12 * n <= sector.len(),
        n == 30 || sector.len() < 2 + 12 * n + 12,
    ensures
        ({
            let shown = smart_health(sector).attributes;
            &&& shown.len() == used_ids(sector, n).len()
            &&& forall|k: int|
                0 <= k < shown.len() ==> (#[trigger] shown[k]).id == used_ids(sector, n)[k]
            &&& forall|k: int|
                0 <= k < shown.len() ==> stands_in_some_slot(
                    #[trigger] shown[k],
                    sector,
                    n as int,
                )
        }),
{
    assert(slot_count(sector) == n);
    attributes_stand_in_slots(sector, n as int);
}

/// The sector in a reply: the 512 bytes behind the header, where that many were written; else the
/// error says how many there were.
pub proof fn the_sector_follows_the_header(
    reply: Seq<u8>,
    header: int,
    r: Result<Vec<u8>, WinError>,
    written: u32,
    short: Seq<char>,
    k: int,
)
    requires
        0 <= header,
        reply.len() == header + 512,
        reply_sector(reply, header, r, written, short),
        0 <= k < 512,
    ensures
        match r {
            Ok(sector) => written >= header + 512 && sector@.len() == 512 && sector@[k]
                == reply[header + k],
            Err(e) => written < header + 512 && e.code == written && e.context@ == short,
        },
{
}

/// Both requests ask for the same thing: command 0xB0 with feature 0xD0 and the signature 0x4F,
/// 0xC2 in the middle and high address, for one sector. The legacy request is 32 bytes long and
/// the pass-through request carries a 56-byte header and room for the sector behind it.
pub proof fn the_requests_ask_for_smart_data()
    ensures
        ({
            let q = legacy_request_bytes();
            &&& q.len() == 32
            &&& q[0] + 256 * q[1] + 65536 * q[2] + 16777216 * q[3] == 512
            &&& q[4] == 0xD0 && q[5] == 1 && q[6] == 1 && q[7] == 0x4F && q[8] == 0xC2 && q[9]
                == 0xA0 && q[10] == 0xB0
            &&& forall|k: int| 11 <= k < 32 ==> q[k] == 0
        }),
        ({
            let q = passthrough_request_bytes();
            &&& q.len() == 568
            &&& q[0] + 256 * q[1] == 56
            &&& q[2] == 3
            &&& q[8] + 256 * q[9] == 512
            &&& q[16] == 10
            &&& q[32] == 56
            &&& q[48] == 0xD0 && q[49] == 1 && q[50] == 0 && q[51] == 0x4F && q[52] == 0xC2 && q[53]
                == 0 && q[54] == 0xB0
            &&& forall|k: int| 3 <= k < 48 && k != 9 && k != 16 && k != 32 ==> q[k] == 0
            &&& forall|k: int| 55 <= k < 568 ==> q[k] == 0
        }),
{
}

/// What a pair of failures means: a refusal of access on either way is a lack of rights; a pair
/// of codes that mean that the request is not known is a lack of support; anything else is
/// reported with both errors.
pub proof fn two_failures_are_told_apart(
    legacy: Seq<char>,
    legacy_code: u32,
    passthrough: Seq<char>,
    passthrough_code: u32,
)
    ensures
        ({
            let why = failure_of(legacy, legacy_code, passthrough, passthrough_code);
            let unknown = set![1u32, 50u32, 87u32, 1306u32];
            &&& why == UnavailableView::RequiresElevation <==> legacy_code == 5 || passthrough_code
                == 5
            &&& why == UnavailableView::NotSupportedByHardware <==> unknown.contains(legacy_code)
                && unknown.contains(passthrough_code)
            &&& why matches UnavailableView::QueryFailed(text) ==> text == "legacy: "@ + error_text(
                legacy,
                legacy_code,
            ) + "; pass-through: "@ + error_text(passthrough, passthrough_code)
            &&& why == UnavailableView::RequiresElevation || why
                == UnavailableView::NotSupportedByHardware || why is QueryFailed
        }),
{
}

/// An attribute's name stands for its id and for no other, but for two that two ids share: wear
/// levelling, which vendors count under 173 or 177, and reserved space, under 170 or 232.
#[verifier::rlimit(60)]
pub proof fn attribute_names_stand_for_their_ids(id: u8)
    ensures
        name_of(id) == "Raw Read Error Rate"@ <==> id == 1,
        name_of(id) == "Spin-Up Time"@ <==> id == 3,
        name_of(id) == "Start/Stop Count"@ <==> id == 4,
        name_of(id) == "Reallocated Sectors Count"@ <==> id == 5,
        name_of(id) == "Seek Error Rate"@ <==> id == 7,
        name_of(id) == "Power-On Hours"@ <==> id == 9,
        name_of(id) == "Spin Retry Count"@ <==> id == 10,
        name_of(id) == "Power Cycle Count"@ <==> id == 12,
        name_of(id) == "Available Reserved Space"@ <==> id == 170 || id == 232,
        name_of(id) == "Program Fail Count"@ <==> id == 171,
        name_of(id) == "Erase Fail Count"@ <==> id == 172,
        name_of(id) == "Wear Leveling Count"@ <==> id == 173 || id == 177,
        name_of(id) == "Unexpected Power Loss Count"@ <==> id == 174,
        name_of(id) == "Program Fail Count (Chip)"@ <==> id == 175,
        name_of(id) == "Used Reserved Block Count"@ <==> id == 179,
        name_of(id) == "Program Fail Count (Total)"@ <==> id == 181,
        name_of(id) == "Erase Fail Count (Total)"@ <==> id == 182,
        name_of(id) == "Runtime Bad Block"@ <==> id == 183,
        name_of(id) == "End-to-End Error"@ <==> id == 184,
        name_of(id) == "Reported Uncorrectable Errors"@ <==> id == 187,
        name_of(id) == "Command Timeout"@ <==> id == 188,
        name_of(id) == "Airflow Temperature"@ <==> id == 190,
        name_of(id) == "Temperature"@ <==> id == 194,
        name_of(id) == "Hardware ECC Recovered"@ <==> id == 195,
        name_of(id) == "Reallocation Event Count"@ <==> id == 196,
        name_of(id) == "Current Pending Sector Count"@ <==> id == 197,
        name_of(id) == "Offline Uncorrectable Sector Count"@ <==> id == 198,
        name_of(id) == "UltraDMA CRC Error Count"@ <==> id == 199,
        name_of(id) == "Soft Read Error Rate"@ <==> id == 201,
        name_of(id) == "Data Address Mark Errors"@ <==> id == 202,
        name_of(id) == "SSD Life Left"@ <==> id == 231,
        name_of(id) == "Media Wearout Indicator"@ <==> id == 233,
        name_of(id) == "Total LBAs Written"@ <==> id == 241,
        name_of(id) == "Total LBAs Read"@ <==> id == 242,
{
    reveal_strlit("Raw Read Error Rate");
    reveal_strlit("Spin-Up Time");
    reveal_strlit("Start/Stop Count");
    reveal_strlit("Reallocated Sectors Count");
    reveal_strlit("Seek Error Rate");
    reveal_strlit("Power-On Hours");
    reveal_strlit("Spin Retry Count");
    reveal_strlit("Power Cycle Count");
    reveal_strlit("Available Reserved Space");
    reveal_strlit("Program Fail Count");
    reveal_strlit("Erase Fail Count");
    reveal_strlit("Wear Leveling Count");
    reveal_strlit("Unexpected Power Loss Count");
    reveal_strlit("Program Fail Count (Chip)");
    reveal_strlit("Used Reserved Block Count");
    reveal_strlit("Program Fail Count (Total)");
    reveal_strlit("Erase Fail Count (Total)");
    reveal_strlit("Runtime Bad Block");
    reveal_strlit("End-to-End Error");
    reveal_strlit("Reported Uncorrectable Errors");
    reveal_strlit("Command Timeout");
    reveal_strlit("Airflow Temperature");
    reveal_strlit("Temperature");
    reveal_strlit("Hardware ECC Recovered");
    reveal_strlit("Reallocation Event Count");
    reveal_strlit("Current Pending Sector Count");
    reveal_strlit("Offline Uncorrectable Sector Count");
    reveal_strlit("UltraDMA CRC Error Count");
    reveal_strlit("Soft Read Error Rate");
    reveal_strlit("Data Address Mark Errors");
    reveal_strlit("SSD Life Left");
    reveal_strlit("Media Wearout Indicator");
    reveal_strlit("Total LBAs Written");
    reveal_strlit("Total LBAs Read");
    reveal_strlit("Vendor Specific");
    assert("Raw Read Error Rate"@.len() == 19 && "Raw Read Error Rate"@[3] == ' ');
    assert("Spin-Up Time"@.len() == 12 && "Spin-Up Time"@[3] == 'n');
    assert("Start/Stop Count"@.len() == 16 && "Start/Stop Count"@[3] == 'r');
    assert("Reallocated Sectors Count"@.len() == 25 && "Reallocated Sectors Count"@[3] == 'l');
    assert("Seek Error Rate"@.len() == 15 && "Seek Error Rate"@[3] == 'k');
    assert("Power-On Hours"@.len() == 14 && "Power-On Hours"@[3] == 'e');
    assert("Spin Retry Count"@.len() == 16 && "Spin Retry Count"@[3] == 'n');
    assert("Power Cycle Count"@.len() == 17 && "Power Cycle Count"@[3] == 'e');
    assert("Available Reserved Space"@.len() == 24 && "Available Reserved Space"@[3] == 'i');
    assert("Program Fail Count"@.len() == 18 && "Program Fail Count"@[3] == 'g');
    assert("Erase Fail Count"@.len() == 16 && "Erase Fail Count"@[3] == 's');
    assert("Wear Leveling Count"@.len() == 19 && "Wear Leveling Count"@[3] == 'r');
    assert("Unexpected Power Loss Count"@.len() == 27 && "Unexpected Power Loss Count"@[3] == 'x');
    assert("Program Fail Count (Chip)"@.len() == 25 && "Program Fail Count (Chip)"@[3] == 'g');
    assert("Used Reserved Block Count"@.len() == 25 && "Used Reserved Block Count"@[3] == 'd');
    assert("Program Fail Count (Total)"@.len() == 26 && "Program Fail Count (Total)"@[3] == 'g');
    assert("Erase Fail Count (Total)"@.len() == 24 && "Erase Fail Count (Total)"@[3] == 's');
    assert("Runtime Bad Block"@.len() == 17 && "Runtime Bad Block"@[3] == 't');
    assert("End-to-End Error"@.len() == 16 && "End-to-End Error"@[3] == '-');
    assert("Reported Uncorrectable Errors"@.len() == 29 && "Reported Uncorrectable Errors"@[3] == 'o');
    assert("Command Timeout"@.len() == 15 && "Command Timeout"@[3] == 'm');
    assert("Airflow Temperature"@.len() == 19 && "Airflow Temperature"@[3] == 'f');
    assert("Temperature"@.len() == 11 && "Temperature"@[3] == 'p');
    assert("Hardware ECC Recovered"@.len() == 22 && "Hardware ECC Recovered"@[3] == 'd');
    assert("Reallocation Event Count"@.len() == 24 && "Reallocation Event Count"@[3] == 'l');
    assert("Current Pending Sector Count"@.len() == 28 && "Current Pending Sector Count"@[3] == 'r');
    assert("Offline Uncorrectable Sector Count"@.len() == 34 && "Offline Uncorrectable Sector Count"@[3] == 'l');
    assert("UltraDMA CRC Error Count"@.len() == 24 && "UltraDMA CRC Error Count"@[3] == 'r');
    assert("Soft Read Error Rate"@.len() == 20 && "Soft Read Error Rate"@[3] == 't');
    assert("Data Address Mark Errors"@.len() == 24 && "Data Address Mark Errors"@[3] == 'a');
    assert("SSD Life Left"@.len() == 13 && "SSD Life Left"@[3] == ' ');
    assert("Media Wearout Indicator"@.len() == 23 && "Media Wearout Indicator"@[3] == 'i');
    assert("Total LBAs Written"@.len() == 18 && "Total LBAs Written"@[3] == 'a');
    assert("Total LBAs Read"@.len() == 15 && "Total LBAs Read"@[3] == 'a');
    assert("Vendor Specific"@.len() == 15 && "Vendor Specific"@[3] == 'd');
}

} // verus!
