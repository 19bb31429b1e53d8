//! Battery probe: decoding what the battery class driver says of a pack.
//!
//! Two things the pack's own data cannot be trusted on, and which the report reflects:
//!   * The cycle count reads 0 on a large share of laptops because the pack has no cycle
//!     counter. Zero is not "brand new", it is "unknown", and is reported as such.
//!   * Full-charge capacity is self-reported by the pack's own controller.
use vstd::prelude::*;

use crate::bytes::{le16, le32, push_le32, push_zeros, read_le16, read_le32};
use crate::measure::Share;
use crate::model::{Reading, ReadingView, Unavailable, UnavailableView};
use crate::text::number::{
    digits_value, padded, padding_keeps_the_number, push_padded2, push_padded4, push_signed_tenths,
    signed_tenths,
};
use crate::text::{eq_text, to_uppercase, trim, trimmed, uppercase};
use crate::win::wide::{before_nul, read_units, units_of, utf16_text};
use crate::win::{wide_to_string, WinError};

verus! {

// ---------------------------------------------------------------------------
// Kernel ABI (batclass.h)
// ---------------------------------------------------------------------------

/// Size of `BATTERY_QUERY_INFORMATION`.
pub const QUERY_INFORMATION_SIZE: usize = 12;

/// Size of `BATTERY_INFORMATION`.
pub const INFORMATION_SIZE: usize = 40;

/// Where the last field of `BATTERY_INFORMATION`, the cycle count, ends. A driver need not
/// write what lies behind it.
pub const INFORMATION_FIELDS_END: usize = 36;

/// Size of `BATTERY_WAIT_STATUS`.
pub const WAIT_STATUS_SIZE: usize = 20;

/// Size of `BATTERY_STATUS`.
pub const STATUS_SIZE: usize = 16;

/// Size of `BATTERY_MANUFACTURE_DATE`.
pub const MANUFACTURE_DATE_SIZE: usize = 4;

// BATTERY_QUERY_INFORMATION_LEVEL
pub const LEVEL_INFORMATION: u32 = 0;

pub const LEVEL_TEMPERATURE: u32 = 2;

pub const LEVEL_ESTIMATED_TIME: u32 = 3;

pub const LEVEL_DEVICE_NAME: u32 = 4;

pub const LEVEL_MANUFACTURE_DATE: u32 = 5;

pub const LEVEL_MANUFACTURE_NAME: u32 = 6;

pub const LEVEL_UNIQUE_ID: u32 = 7;

pub const LEVEL_SERIAL_NUMBER: u32 = 8;

// BATTERY_STATUS power state bits
pub const BATTERY_POWER_ON_LINE: u32 = 0x0000_0001;

pub const BATTERY_DISCHARGING: u32 = 0x0000_0002;

pub const BATTERY_CHARGING: u32 = 0x0000_0004;

pub const BATTERY_CRITICAL: u32 = 0x0000_0008;

// BATTERY_INFORMATION capability bits
pub const BATTERY_SYSTEM_BATTERY: u32 = 0x8000_0000;

pub const BATTERY_CAPACITY_RELATIVE: u32 = 0x4000_0000;

/// Sentinel the battery class driver returns for "I don't know".
pub const BATTERY_UNKNOWN: u32 = 0xFFFF_FFFF;

/// What a pack says of itself.
#[derive(Debug, Clone, Copy)]
pub struct BatteryInformationRaw {
    pub capabilities: u32,
    pub chemistry: [u8; 4],
    pub designed_capacity: u32,
    pub full_charged_capacity: u32,
    pub default_alert1: u32,
    pub default_alert2: u32,
    pub critical_bias: u32,
    pub cycle_count: u32,
}

impl Default for BatteryInformationRaw {
    fn default() -> (r: Self)
        ensures
            r.capabilities == 0,
            r.chemistry@ == seq![0u8, 0u8, 0u8, 0u8],
            r.designed_capacity == 0,
            r.full_charged_capacity == 0,
            r.default_alert1 == 0,
            r.default_alert2 == 0,
            r.critical_bias == 0,
            r.cycle_count == 0,
    {
        let r = BatteryInformationRaw {
            capabilities: 0,
            chemistry: [0, 0, 0, 0],
            designed_capacity: 0,
            full_charged_capacity: 0,
            default_alert1: 0,
            default_alert2: 0,
            critical_bias: 0,
            cycle_count: 0,
        };
        assert(r.chemistry@ =~= seq![0u8, 0u8, 0u8, 0u8]);
        r
    }
}

/// The mathematical model of [`BatteryInformationRaw`].
#[verifier::ext_equal]
pub struct InformationView {
    pub capabilities: u32,
    pub chemistry: Seq<u8>,
    pub designed_capacity: u32,
    pub full_charged_capacity: u32,
    pub default_alert1: u32,
    pub default_alert2: u32,
    pub critical_bias: u32,
    pub cycle_count: u32,
}

impl DeepView for BatteryInformationRaw {
    type V = InformationView;

    open spec fn deep_view(&self) -> InformationView {
        InformationView {
            capabilities: self.capabilities,
            chemistry: self.chemistry@,
            designed_capacity: self.designed_capacity,
            full_charged_capacity: self.full_charged_capacity,
            default_alert1: self.default_alert1,
            default_alert2: self.default_alert2,
            critical_bias: self.critical_bias,
            cycle_count: self.cycle_count,
        }
    }
}

/// A pack's present state.
#[derive(Debug, Clone, Copy, PartialEq, Eq, Structural)]
pub struct BatteryStatusRaw {
    pub power_state: u32,
    pub capacity: u32,
    pub voltage: u32,
    pub rate: i32,
}

// ---------------------------------------------------------------------------
// Public shape
// ---------------------------------------------------------------------------

#[derive(Debug, Clone, Copy, PartialEq, Eq, Structural)]
pub enum PowerState {
    Charging,
    Discharging,
    OnLineNotCharging,
    Critical,
    Unknown,
}

impl DeepView for PowerState {
    type V = PowerState;

    open spec fn deep_view(&self) -> PowerState {
        *self
    }
}

impl PowerState {
    /// The state that the driver's bits stand for: critical before charging, charging
    /// before discharging, discharging before merely being on line.
    pub open spec fn of_bits(bits: u32) -> PowerState {
        if bits & BATTERY_CRITICAL != 0 {
            PowerState::Critical
        } else if bits & BATTERY_CHARGING != 0 {
            PowerState::Charging
        } else if bits & BATTERY_DISCHARGING != 0 {
            PowerState::Discharging
        } else if bits & BATTERY_POWER_ON_LINE != 0 {
            PowerState::OnLineNotCharging
        } else {
            PowerState::Unknown
        }
    }

    pub fn from_bits(bits: u32) -> (r: Self)
        ensures
            r == Self::of_bits(bits),
    {
        if bits & BATTERY_CRITICAL != 0 {
            PowerState::Critical
        } else if bits & BATTERY_CHARGING != 0 {
            PowerState::Charging
        } else if bits & BATTERY_DISCHARGING != 0 {
            PowerState::Discharging
        } else if bits & BATTERY_POWER_ON_LINE != 0 {
            PowerState::OnLineNotCharging
        } else {
            PowerState::Unknown
        }
    }
}

#[derive(Debug, Clone)]
pub struct BatteryReport {
    pub device_name: Reading<String>,
    pub manufacturer: Reading<String>,
    pub serial_number: Reading<String>,
    pub unique_id: Reading<String>,
    pub manufacture_date: Reading<String>,
    pub chemistry: Reading<String>,
    pub power_state: Reading<PowerState>,
    /// Present charge against full-charge capacity.
    pub current_capacity_share: Reading<Share>,
    pub current_capacity_mwh: Reading<u32>,
    pub voltage_mv: Reading<u32>,
    /// Negative while discharging, positive while charging (mW).
    pub charge_rate_mw: Reading<i32>,
    /// In hundredths of a degree Celsius.
    pub temperature_centi_c: Reading<i32>,
    pub full_charged_capacity_mwh: Reading<u32>,
    pub designed_capacity_mwh: Reading<u32>,
    /// Full-charge capacity against design capacity.
    pub health: Reading<Share>,
    pub cycle_count: Reading<u32>,
    pub low_battery_capacity_1: Reading<u32>,
    pub low_battery_capacity_2: Reading<u32>,
    pub critical_bias: Reading<u32>,
    pub estimated_runtime_s: Reading<u32>,
    pub full_runtime_s: Reading<u32>,
    /// True when capacity is reported as a percentage rather than mWh. Such packs cannot
    /// give a meaningful wear figure, and the report must not pretend otherwise.
    pub capacity_is_relative: bool,
    pub is_system_battery: bool,
}

/// The mathematical model of [`BatteryReport`].
#[verifier::ext_equal]
pub struct BatteryReportView {
    pub device_name: ReadingView<Seq<char>>,
    pub manufacturer: ReadingView<Seq<char>>,
    pub serial_number: ReadingView<Seq<char>>,
    pub unique_id: ReadingView<Seq<char>>,
    pub manufacture_date: ReadingView<Seq<char>>,
    pub chemistry: ReadingView<Seq<char>>,
    pub power_state: ReadingView<PowerState>,
    pub current_capacity_share: ReadingView<Share>,
    pub current_capacity_mwh: ReadingView<u32>,
    pub voltage_mv: ReadingView<u32>,
    pub charge_rate_mw: ReadingView<i32>,
    pub temperature_centi_c: ReadingView<i32>,
    pub full_charged_capacity_mwh: ReadingView<u32>,
    pub designed_capacity_mwh: ReadingView<u32>,
    pub health: ReadingView<Share>,
    pub cycle_count: ReadingView<u32>,
    pub low_battery_capacity_1: ReadingView<u32>,
    pub low_battery_capacity_2: ReadingView<u32>,
    pub critical_bias: ReadingView<u32>,
    pub estimated_runtime_s: ReadingView<u32>,
    pub full_runtime_s: ReadingView<u32>,
    pub capacity_is_relative: bool,
    pub is_system_battery: bool,
}

impl DeepView for BatteryReport {
    type V = BatteryReportView;

    open spec fn deep_view(&self) -> BatteryReportView {
        BatteryReportView {
            device_name: self.device_name.deep_view(),
            manufacturer: self.manufacturer.deep_view(),
            serial_number: self.serial_number.deep_view(),
            unique_id: self.unique_id.deep_view(),
            manufacture_date: self.manufacture_date.deep_view(),
            chemistry: self.chemistry.deep_view(),
            power_state: self.power_state.deep_view(),
            current_capacity_share: self.current_capacity_share.deep_view(),
            current_capacity_mwh: self.current_capacity_mwh.deep_view(),
            voltage_mv: self.voltage_mv.deep_view(),
            charge_rate_mw: self.charge_rate_mw.deep_view(),
            temperature_centi_c: self.temperature_centi_c.deep_view(),
            full_charged_capacity_mwh: self.full_charged_capacity_mwh.deep_view(),
            designed_capacity_mwh: self.designed_capacity_mwh.deep_view(),
            health: self.health.deep_view(),
            cycle_count: self.cycle_count.deep_view(),
            low_battery_capacity_1: self.low_battery_capacity_1.deep_view(),
            low_battery_capacity_2: self.low_battery_capacity_2.deep_view(),
            critical_bias: self.critical_bias.deep_view(),
            estimated_runtime_s: self.estimated_runtime_s.deep_view(),
            full_runtime_s: self.full_runtime_s.deep_view(),
            capacity_is_relative: self.capacity_is_relative,
            is_system_battery: self.is_system_battery,
        }
    }
}

// ---------------------------------------------------------------------------
// Queries
// ---------------------------------------------------------------------------

/// The input of an information query: the pack's tag, the kind of information, and a
/// discharge rate of 0, which means "at the present rate".
pub fn information_query(tag: u32, level: u32) -> (v: Vec<u8>)
    ensures
        v@.len() == QUERY_INFORMATION_SIZE,
        le32(v@, 0) == tag,
        le32(v@, 4) == level,
        le32(v@, 8) == 0,
{
    let mut v: Vec<u8> = Vec::new();
    push_le32(&mut v, tag);
    push_le32(&mut v, level);
    push_zeros(&mut v, 4);
    v
}

/// The input of a status query: the pack's tag, and no condition to wait for.
pub fn status_query(tag: u32) -> (v: Vec<u8>)
    ensures
        v@.len() == WAIT_STATUS_SIZE,
        le32(v@, 0) == tag,
        forall|i: int| 4 <= i < v@.len() ==> v@[i] == 0,
{
    let mut v: Vec<u8> = Vec::new();
    push_le32(&mut v, tag);
    push_zeros(&mut v, 16);
    v
}

/// The bytes that the driver wrote in answer to each query about a pack; nothing where the
/// query failed.
#[derive(Debug)]
pub struct BatteryReplies {
    pub information: Option<Vec<u8>>,
    pub status: Option<Vec<u8>>,
    pub device_name: Option<Vec<u8>>,
    pub manufacturer: Option<Vec<u8>>,
    pub serial_number: Option<Vec<u8>>,
    pub unique_id: Option<Vec<u8>>,
    pub manufacture_date: Option<Vec<u8>>,
    pub temperature: Option<Vec<u8>>,
    pub estimated_time: Option<Vec<u8>>,
}

/// The mathematical model of [`BatteryReplies`].
#[verifier::ext_equal]
pub struct RepliesView {
    pub information: Option<Seq<u8>>,
    pub status: Option<Seq<u8>>,
    pub device_name: Option<Seq<u8>>,
    pub manufacturer: Option<Seq<u8>>,
    pub serial_number: Option<Seq<u8>>,
    pub unique_id: Option<Seq<u8>>,
    pub manufacture_date: Option<Seq<u8>>,
    pub temperature: Option<Seq<u8>>,
    pub estimated_time: Option<Seq<u8>>,
}

/// The bytes of a reply.
pub open spec fn reply_bytes(reply: Option<Vec<u8>>) -> Option<Seq<u8>> {
    match reply {
        Some(v) => Some(v@),
        None => None,
    }
}

impl DeepView for BatteryReplies {
    type V = RepliesView;

    open spec fn deep_view(&self) -> RepliesView {
        RepliesView {
            information: reply_bytes(self.information),
            status: reply_bytes(self.status),
            device_name: reply_bytes(self.device_name),
            manufacturer: reply_bytes(self.manufacturer),
            serial_number: reply_bytes(self.serial_number),
            unique_id: reply_bytes(self.unique_id),
            manufacture_date: reply_bytes(self.manufacture_date),
            temperature: reply_bytes(self.temperature),
            estimated_time: reply_bytes(self.estimated_time),
        }
    }
}

/// The information in a reply that is long enough to hold it.
pub open spec fn information_in(reply: Option<Seq<u8>>) -> Option<InformationView> {
    match reply {
        Some(b) => if b.len() < INFORMATION_FIELDS_END {
            None
        } else {
            Some(
                InformationView {
                    capabilities: le32(b, 0),
                    chemistry: b.subrange(8, 12),
                    designed_capacity: le32(b, 12),
                    full_charged_capacity: le32(b, 16),
                    default_alert1: le32(b, 20),
                    default_alert2: le32(b, 24),
                    critical_bias: le32(b, 28),
                    cycle_count: le32(b, 32),
                },
            )
        },
        None => None,
    }
}

fn read_information(reply: &Option<Vec<u8>>) -> (r: Option<BatteryInformationRaw>)
    ensures
        r.deep_view() == information_in(reply_bytes(*reply)),
{
    match reply {
        Some(v) => {
            let b = v.as_slice();
            if b.len() < INFORMATION_FIELDS_END {
                return None;
            }
            let info = BatteryInformationRaw {
                capabilities: read_le32(b, 0),
                chemistry: [b[8], b[9], b[10], b[11]],
                designed_capacity: read_le32(b, 12),
                full_charged_capacity: read_le32(b, 16),
                default_alert1: read_le32(b, 20),
                default_alert2: read_le32(b, 24),
                critical_bias: read_le32(b, 28),
                cycle_count: read_le32(b, 32),
            };
            assert(info.chemistry@ =~= b@.subrange(8, 12));
            Some(info)
        },
        None => None,
    }
}

/// The status in a reply that is long enough to hold it.
pub open spec fn status_in(reply: Option<Seq<u8>>) -> Option<BatteryStatusRaw> {
    match reply {
        Some(b) => if b.len() < STATUS_SIZE {
            None
        } else {
            Some(
                BatteryStatusRaw {
                    power_state: le32(b, 0),
                    capacity: le32(b, 4),
                    voltage: le32(b, 8),
                    rate: le32(b, 12) as i32,
                },
            )
        },
        None => None,
    }
}

fn read_status(reply: &Option<Vec<u8>>) -> (r: Option<BatteryStatusRaw>)
    ensures
        r == status_in(reply_bytes(*reply)),
{
    match reply {
        Some(v) => {
            let b = v.as_slice();
            if b.len() < STATUS_SIZE {
                None
            } else {
                Some(
                    BatteryStatusRaw {
                        power_state: read_le32(b, 0),
                        capacity: read_le32(b, 4),
                        voltage: read_le32(b, 8),
                        rate: read_le32(b, 12) as i32,
                    },
                )
            }
        },
        None => None,
    }
}

/// The number in a reply that is long enough to hold one.
pub open spec fn number_in(reply: Option<Seq<u8>>) -> Option<u32> {
    match reply {
        Some(b) => if b.len() < 4 {
            None
        } else {
            Some(le32(b, 0))
        },
        None => None,
    }
}

fn read_number(reply: &Option<Vec<u8>>) -> (r: Option<u32>)
    ensures
        r == number_in(reply_bytes(*reply)),
{
    match reply {
        Some(v) => if v.len() < 4 {
            None
        } else {
            Some(read_le32(v.as_slice(), 0))
        },
        None => None,
    }
}

/// The text in a reply: UTF-16 up to a NUL, without the white space around it. A reply
/// that holds no character, or an empty text, says nothing.
pub open spec fn string_in(reply: Option<Seq<u8>>) -> ReadingView<Seq<char>> {
    match reply {
        Some(b) => {
            let s = trimmed(utf16_text(before_nul(units_of(b))));
            if b.len() >= 2 && s.len() > 0 {
                ReadingView::value(s)
            } else {
                ReadingView::unsupported()
            }
        },
        None => ReadingView::unsupported(),
    }
}

/// The text in a reply to a query for a name.
pub fn query_string(reply: &Option<Vec<u8>>) -> (r: Reading<String>)
    ensures
        r.deep_view() == string_in(reply_bytes(*reply)),
{
    match reply {
        Some(v) => {
            if v.len() < 2 {
                return Reading::unsupported();
            }
            let units = read_units(v.as_slice());
            let text = wide_to_string(units.as_slice());
            let s = trim(text.as_str());
            if s.as_str().is_empty() {
                Reading::unsupported()
            } else {
                Reading::value(s)
            }
        },
        None => Reading::unsupported(),
    }
}

/// The date in a reply: day, month and year, as year-month-day.
pub open spec fn date_in(reply: Option<Seq<u8>>) -> ReadingView<Seq<char>> {
    match reply {
        Some(b) => if b.len() < MANUFACTURE_DATE_SIZE {
            ReadingView::unsupported()
        } else {
            let (day, month, year) = (b[0], b[1], le16(b, 2));
            if year > 1980 && 1 <= month <= 12 && 1 <= day <= 31 {
                ReadingView::value(
                    padded(year as nat, 4) + "-"@ + padded(month as nat, 2) + "-"@ + padded(
                        day as nat,
                        2,
                    ),
                )
            } else {
                ReadingView::missing(
                    UnavailableView::ImplausibleValue("manufacture date out of range"@),
                )
            }
        },
        None => ReadingView::unsupported(),
    }
}

/// The date in a reply to a query for the manufacture date.
pub fn query_manufacture_date(reply: &Option<Vec<u8>>) -> (r: Reading<String>)
    ensures
        r.deep_view() == date_in(reply_bytes(*reply)),
{
    match reply {
        Some(v) => {
            let b = v.as_slice();
            if b.len() < MANUFACTURE_DATE_SIZE {
                return Reading::unsupported();
            }
            let day = b[0];
            let month = b[1];
            let year = read_le16(b, 2);
            if year > 1980 && 1 <= month && month <= 12 && 1 <= day && day <= 31 {
                let mut s = String::new();
                push_padded4(&mut s, year as u128);
                assert(s@ == padded(year as nat, 4));
                s.append("-");
                push_padded2(&mut s, month as u128);
                s.append("-");
                push_padded2(&mut s, day as u128);
                Reading::value(s)
            } else {
                Reading::missing(
                    Unavailable::ImplausibleValue(String::from_str("manufacture date out of range")),
                )
            }
        },
        None => Reading::unsupported(),
    }
}

/// The temperature in a reply, in hundredths of a degree Celsius. It is reported in tenths
/// of a degree Kelvin, and most consumer packs do not implement it; a value outside -40 to
/// 100 degrees is implausible.
pub open spec fn temperature_in(reply: Option<Seq<u8>>) -> ReadingView<i32> {
    match number_in(reply) {
        Some(k) => if k == 0 || k == BATTERY_UNKNOWN {
            ReadingView::unsupported()
        } else {
            let centi = 10 * k - 27315;
            if -4000 <= centi <= 10000 {
                ReadingView::value(centi as i32)
            } else {
                ReadingView::missing(
                    UnavailableView::ImplausibleValue(signed_tenths(k - 2731) + " C"@),
                )
            }
        },
        None => ReadingView::unsupported(),
    }
}

/// The temperature in a reply to a query for it.
pub fn query_temperature(reply: &Option<Vec<u8>>) -> (r: Reading<i32>)
    ensures
        r.deep_view() == temperature_in(reply_bytes(*reply)),
{
    match read_number(reply) {
        Some(k) => {
            if k == 0 || k == BATTERY_UNKNOWN {
                return Reading::unsupported();
            }
            let centi: i64 = 10 * (k as i64) - 27315;
            if -4000 <= centi && centi <= 10000 {
                Reading::value(centi as i32)
            } else {
                let mut s = String::new();
                push_signed_tenths(&mut s, k as i64 - 2731);
                assert(s@ == signed_tenths(k - 2731));
                s.append(" C");
                Reading::missing(Unavailable::ImplausibleValue(s))
            }
        },
        None => Reading::unsupported(),
    }
}

/// The runtime that the driver estimates. It does not know one while on line power.
pub open spec fn runtime_in(reply: Option<Seq<u8>>) -> ReadingView<u32> {
    match number_in(reply) {
        Some(s) => if s == BATTERY_UNKNOWN {
            ReadingView::missing(UnavailableView::NotApplicable)
        } else {
            ReadingView::value(s)
        },
        None => ReadingView::unsupported(),
    }
}

/// The runtime in a reply to a query for it.
pub fn query_estimated_time(reply: &Option<Vec<u8>>) -> (r: Reading<u32>)
    ensures
        r.deep_view() == runtime_in(reply_bytes(*reply)),
{
    match read_number(reply) {
        Some(s) => if s == BATTERY_UNKNOWN {
            Reading::missing(Unavailable::NotApplicable)
        } else {
            Reading::value(s)
        },
        None => Reading::unsupported(),
    }
}

/// The cycle count of a pack. A zero means "this pack has no cycle counter", not "unused".
pub open spec fn cycles_of(info: Option<InformationView>) -> ReadingView<u32> {
    match info {
        Some(i) => if i.cycle_count > 0 {
            ReadingView::value(i.cycle_count)
        } else {
            ReadingView::unsupported()
        },
        None => ReadingView::unsupported(),
    }
}

/// Reporting 0 here would tell a buyer the battery is factory-fresh, which is exactly the
/// kind of confident wrong answer this tool exists to avoid.
pub fn query_cycle_count(info: Option<BatteryInformationRaw>) -> (r: Reading<u32>)
    ensures
        r.deep_view() == cycles_of(info.deep_view()),
{
    match info {
        Some(i) => if i.cycle_count > 0 {
            Reading::value(i.cycle_count)
        } else {
            Reading::missing(Unavailable::NotSupportedByHardware)
        },
        None => Reading::unsupported(),
    }
}

/// A capacity that is known: neither 0 nor the sentinel.
pub open spec fn known(v: u32) -> Option<u32> {
    if v == BATTERY_UNKNOWN || v == 0 {
        None
    } else {
        Some(v)
    }
}

pub fn sane_capacity(v: u32) -> (r: Option<u32>)
    ensures
        r == known(v),
{
    if v == BATTERY_UNKNOWN || v == 0 {
        None
    } else {
        Some(v)
    }
}

/// The characters with these codes, without the NULs.
pub open spec fn code_chars(raw: Seq<u8>) -> Seq<char>
    decreases raw.len(),
{
    if raw.len() == 0 {
        seq![]
    } else if raw.last() == 0 {
        code_chars(raw.drop_last())
    } else {
        code_chars(raw.drop_last()).push(raw.last() as char)
    }
}

/// The name of a chemistry code; an unknown code stands for itself.
pub open spec fn chemistry_name(code: Seq<char>) -> Seq<char> {
    if code == "LION"@ || code == "LI-I"@ {
        "Lithium Ion"@
    } else if code == "LIP"@ {
        "Lithium Polymer"@
    } else if code == "NIMH"@ {
        "Nickel Metal Hydride"@
    } else if code == "NICD"@ {
        "Nickel Cadmium"@
    } else if code == "PBAC"@ {
        "Lead Acid"@
    } else if code == "RAM"@ {
        "Rechargeable Alkaline-Manganese"@
    } else if code.len() == 0 {
        "Unknown"@
    } else {
        code
    }
}

/// The code in the four chemistry bytes of a pack.
fn chemistry_code(raw: &[u8; 4]) -> (code: String)
    ensures
        code@ == uppercase(trimmed(code_chars(raw@))),
{
    let mut s = String::new();
    let mut i: usize = 0;
    while i < 4
        invariant
            i <= 4,
            s@ == code_chars(raw@.take(i as int)),
        decreases 4 - i,
    {
        assert(raw@.take(i + 1).drop_last() == raw@.take(i as int));
        let b = raw[i];
        if b != 0 {
            s.push(b as char);
        }
        i += 1;
    }
    assert(raw@.take(4) == raw@);
    let t = trim(s.as_str());
    to_uppercase(t.as_str())
}

/// The friendly name of a chemistry code. Unrecognised codes pass through rather than being
/// hidden.
pub fn name_chemistry(code: String) -> (r: String)
    ensures
        r@ == chemistry_name(code@),
{
    let c = code.as_str();
    if eq_text(c, "LION") || eq_text(c, "LI-I") {
        String::from_str("Lithium Ion")
    } else if eq_text(c, "LIP") {
        String::from_str("Lithium Polymer")
    } else if eq_text(c, "NIMH") {
        String::from_str("Nickel Metal Hydride")
    } else if eq_text(c, "NICD") {
        String::from_str("Nickel Cadmium")
    } else if eq_text(c, "PBAC") {
        String::from_str("Lead Acid")
    } else if eq_text(c, "RAM") {
        String::from_str("Rechargeable Alkaline-Manganese")
    } else if c.is_empty() {
        String::from_str("Unknown")
    } else {
        code
    }
}

/// The name of a pack's chemistry, from its four-byte code.
pub fn decode_chemistry(raw: &[u8; 4]) -> (r: String)
    ensures
        r@ == chemistry_name(uppercase(trimmed(code_chars(raw@)))),
{
    name_chemistry(chemistry_code(raw))
}

// ---------------------------------------------------------------------------
// One pack
// ---------------------------------------------------------------------------

/// Wear is only meaningful when both capacities are absolute and plausible.
pub open spec fn wear(designed: Option<u32>, full: Option<u32>, relative: bool) -> ReadingView<Share> {
    if relative {
        ReadingView::missing(UnavailableView::NotApplicable)
    } else {
        match (designed, full) {
            (Some(d), Some(f)) => ReadingView::value(Share { part: f as u64, whole: d as u64 }),
            _ => ReadingView::missing(
                UnavailableView::ImplausibleValue("design or full-charge capacity reported as 0"@),
            ),
        }
    }
}

/// The present charge against the full charge.
pub open spec fn charge(current: Option<u32>, full: Option<u32>) -> ReadingView<Share> {
    match (current, full) {
        (Some(c), Some(f)) => ReadingView::value(Share { part: c as u64, whole: f as u64 }),
        _ => ReadingView::unsupported(),
    }
}

/// The rate, where the driver knows it.
pub open spec fn known_rate(status: Option<BatteryStatusRaw>) -> Option<i32> {
    match status {
        Some(s) => if s.rate == i32::MIN {
            None
        } else {
            Some(s.rate)
        },
        None => None,
    }
}

/// How long a full pack would last at the present drain, in seconds; not applicable while
/// charging or idle.
pub open spec fn full_runtime(full: Option<u32>, rate: Option<i32>) -> ReadingView<u32> {
    match (full, rate) {
        (Some(f), Some(r)) => if r < 0 {
            let seconds = (f * 3600) / (-r);
            ReadingView::value(
                if seconds > u32::MAX {
                    u32::MAX
                } else {
                    seconds as u32
                },
            )
        } else {
            ReadingView::missing(UnavailableView::NotApplicable)
        },
        (None, Some(_)) => ReadingView::missing(UnavailableView::NotApplicable),
        (_, None) => ReadingView::unsupported(),
    }
}

/// The report on a pack that gave these replies.
pub open spec fn report_of(r: RepliesView) -> BatteryReportView {
    let info = information_in(r.information);
    let status = status_in(r.status);
    let capabilities = match info {
        Some(i) => i.capabilities,
        None => 0,
    };
    let relative = capabilities & BATTERY_CAPACITY_RELATIVE != 0;
    let designed = match info {
        Some(i) => known(i.designed_capacity),
        None => None,
    };
    let full = match info {
        Some(i) => known(i.full_charged_capacity),
        None => None,
    };
    let current = match status {
        Some(s) => known(s.capacity),
        None => None,
    };
    let voltage = match status {
        Some(s) => known(s.voltage),
        None => None,
    };
    let rate = known_rate(status);
    BatteryReportView {
        device_name: string_in(r.device_name),
        manufacturer: string_in(r.manufacturer),
        serial_number: string_in(r.serial_number),
        unique_id: string_in(r.unique_id),
        manufacture_date: date_in(r.manufacture_date),
        chemistry: match info {
            Some(i) => ReadingView::value(
                chemistry_name(uppercase(trimmed(code_chars(i.chemistry)))),
            ),
            None => ReadingView::unsupported(),
        },
        power_state: match status {
            Some(s) => ReadingView::value(PowerState::of_bits(s.power_state)),
            None => ReadingView::unsupported(),
        },
        current_capacity_share: charge(current, full),
        current_capacity_mwh: ReadingView::from_option(current),
        voltage_mv: ReadingView::from_option(voltage),
        charge_rate_mw: ReadingView::from_option(rate),
        temperature_centi_c: temperature_in(r.temperature),
        full_charged_capacity_mwh: ReadingView::from_option(full),
        designed_capacity_mwh: ReadingView::from_option(designed),
        health: wear(designed, full, relative),
        cycle_count: cycles_of(info),
        low_battery_capacity_1: match info {
            Some(i) => ReadingView::value(i.default_alert1),
            None => ReadingView::unsupported(),
        },
        low_battery_capacity_2: match info {
            Some(i) => ReadingView::value(i.default_alert2),
            None => ReadingView::unsupported(),
        },
        critical_bias: match info {
            Some(i) => ReadingView::value(i.critical_bias),
            None => ReadingView::unsupported(),
        },
        estimated_runtime_s: runtime_in(r.estimated_time),
        full_runtime_s: full_runtime(full, rate),
        capacity_is_relative: relative,
        is_system_battery: capabilities & BATTERY_SYSTEM_BATTERY != 0,
    }
}

fn wear_reading(designed: Option<u32>, full: Option<u32>, relative: bool) -> (r: Reading<Share>)
    ensures
        r.deep_view() == wear(designed, full, relative),
{
    if relative {
        return Reading::missing(Unavailable::NotApplicable);
    }
    match (designed, full) {
        (Some(d), Some(f)) => Reading::value(Share { part: f as u64, whole: d as u64 }),
        _ => Reading::missing(
            Unavailable::ImplausibleValue(
                String::from_str("design or full-charge capacity reported as 0"),
            ),
        ),
    }
}

fn charge_reading(current: Option<u32>, full: Option<u32>) -> (r: Reading<Share>)
    ensures
        r.deep_view() == charge(current, full),
{
    match (current, full) {
        (Some(c), Some(f)) => Reading::value(Share { part: c as u64, whole: f as u64 }),
        _ => Reading::unsupported(),
    }
}

fn full_runtime_reading(full: Option<u32>, rate: Option<i32>) -> (r: Reading<u32>)
    ensures
        r.deep_view() == full_runtime(full, rate),
{
    match (full, rate) {
        (Some(f), Some(r)) => if r < 0 {
            let seconds: u64 = (f as u64 * 3600) / ((-(r as i64)) as u64);
            Reading::value(
                if seconds > 0xFFFF_FFFF {
                    u32::MAX
                } else {
                    seconds as u32
                },
            )
        } else {
            Reading::missing(Unavailable::NotApplicable)
        },
        (None, Some(_)) => Reading::missing(Unavailable::NotApplicable),
        (_, None) => Reading::unsupported(),
    }
}

/// Decode what the driver says of one pack.
pub fn probe_one(replies: &BatteryReplies) -> (r: BatteryReport)
    ensures
        r.deep_view() == report_of(replies.deep_view()),
{
    let info = read_information(&replies.information);
    let status = read_status(&replies.status);
    let capabilities: u32 = match info {
        Some(i) => i.capabilities,
        None => 0,
    };
    let capacity_is_relative = capabilities & BATTERY_CAPACITY_RELATIVE != 0;
    let is_system_battery = capabilities & BATTERY_SYSTEM_BATTERY != 0;
    let designed = match info {
        Some(i) => sane_capacity(i.designed_capacity),
        None => None,
    };
    let full = match info {
        Some(i) => sane_capacity(i.full_charged_capacity),
        None => None,
    };
    let current = match status {
        Some(s) => sane_capacity(s.capacity),
        None => None,
    };
    let voltage = match status {
        Some(s) => sane_capacity(s.voltage),
        None => None,
    };
    let rate = match status {
        // The unknown rate is 0x80000000, the smallest number.
        Some(s) => if s.rate == i32::MIN {
            None
        } else {
            Some(s.rate)
        },
        None => None,
    };
    let (chemistry, alert1, alert2, bias) = match info {
        Some(i) => (
            Reading::value(decode_chemistry(&i.chemistry)),
            Reading::value(i.default_alert1),
            Reading::value(i.default_alert2),
            Reading::value(i.critical_bias),
        ),
        None => (
            Reading::unsupported(),
            Reading::unsupported(),
            Reading::unsupported(),
            Reading::unsupported(),
        ),
    };
    let power_state = match status {
        Some(s) => Reading::value(PowerState::from_bits(s.power_state)),
        None => Reading::unsupported(),
    };
    BatteryReport {
        device_name: query_string(&replies.device_name),
        manufacturer: query_string(&replies.manufacturer),
        serial_number: query_string(&replies.serial_number),
        unique_id: query_string(&replies.unique_id),
        manufacture_date: query_manufacture_date(&replies.manufacture_date),
        chemistry,
        power_state,
        current_capacity_share: charge_reading(current, full),
        current_capacity_mwh: Reading::from(current),
        voltage_mv: Reading::from(voltage),
        charge_rate_mw: Reading::from(rate),
        temperature_centi_c: query_temperature(&replies.temperature),
        full_charged_capacity_mwh: Reading::from(full),
        designed_capacity_mwh: Reading::from(designed),
        health: wear_reading(designed, full, capacity_is_relative),
        cycle_count: query_cycle_count(info),
        low_battery_capacity_1: alert1,
        low_battery_capacity_2: alert2,
        critical_bias: bias,
        estimated_runtime_s: query_estimated_time(&replies.estimated_time),
        full_runtime_s: full_runtime_reading(full, rate),
        capacity_is_relative,
        is_system_battery,
    }
}

/// The packs that could be read, in order.
pub open spec fn readable(packs: Seq<Result<BatteryReport, WinError>>) -> Seq<BatteryReport>
    decreases packs.len(),
{
    if packs.len() == 0 {
        seq![]
    } else {
        match packs.last() {
            Ok(report) => readable(packs.drop_last()).push(report),
            Err(_) => readable(packs.drop_last()),
        }
    }
}

/// Every pack that could be read; one unreadable pack does not hide the others. No pack at
/// all is a legitimate result (a desktop, or a laptop with the pack removed), and a failed
/// enumeration is an error.
pub fn probe(packs: Result<Vec<Result<BatteryReport, WinError>>, WinError>) -> (r: Result<
    Vec<BatteryReport>,
    WinError,
>)
    ensures
        match packs {
            Ok(list) => r matches Ok(out) && out@ == readable(list@),
            Err(e) => r == Err::<Vec<BatteryReport>, WinError>(e),
        },
{
    match packs {
        Ok(list) => {
            let ghost all = list@;
            let mut rest = list;
            let mut out: Vec<BatteryReport> = Vec::new();
            let ghost mut k: int = 0;
            while rest.len() > 0
                invariant
                    0 <= k <= all.len(),
                    rest@ == all.skip(k),
                    out@ == readable(all.take(k)),
                decreases rest.len(),
            {
                let item = rest.remove(0);
                proof {
                    assert(all.take(k + 1).drop_last() == all.take(k));
                    assert(all.take(k + 1).last() == item);
                    assert(rest@ =~= all.skip(k + 1));
                    k = k + 1;
                }
                match item {
                    Ok(report) => out.push(report),
                    Err(_) => {},
                }
            }
            assert(all.take(k) == all);
            Ok(out)
        },
        Err(e) => Err(e),
    }
}

// ---------------------------------------------------------------------------
// Laws
// ---------------------------------------------------------------------------

/// A cycle count of zero is never reported as a value.
pub proof fn a_zero_cycle_count_is_never_a_value(r: RepliesView)
    ensures
        report_of(r).cycle_count.get() matches Some(n) ==> n > 0,
{
}

/// A pack that reports its capacity as a percentage never gets a wear figure.
pub proof fn relative_packs_have_no_wear_figure(r: RepliesView)
    ensures
        report_of(r).capacity_is_relative ==> report_of(r).health.is_without(
            UnavailableView::NotApplicable,
        ),
{
}

/// A wear figure and a charge level are shares of something: their whole is never zero.
pub proof fn shares_have_a_whole(r: RepliesView)
    ensures
        report_of(r).health.get() matches Some(h) ==> h.wf(),
        report_of(r).current_capacity_share.get() matches Some(c) ==> c.wf(),
{
}

/// A full runtime is only estimated while the pack is discharging.
pub proof fn full_runtime_needs_a_drain(r: RepliesView)
    ensures
        report_of(r).full_runtime_s.get() is Some ==> (report_of(r).charge_rate_mw.get() matches Some(
            rate,
        ) && rate < 0),
{
}

/// Being critical outranks every other power state.
pub proof fn critical_outranks_every_other_state(bits: u32)
    requires
        bits & BATTERY_CRITICAL != 0,
    ensures
        PowerState::of_bits(bits) == PowerState::Critical,
{
}

// ---------------------------------------------------------------------------
// From the bytes of the replies to the report
// ---------------------------------------------------------------------------

/// The number that four bytes write, the least significant first.
pub open spec fn four_bytes(b: Seq<u8>, off: int) -> int {
    b[off] + 256 * b[off + 1] + 65536 * b[off + 2] + 16777216 * b[off + 3]
}

/// A figure that the driver knows: neither 0 nor all ones.
pub open spec fn shows_known(shown: ReadingView<u32>, n: int) -> bool {
    match shown.get() {
        Some(v) => v == n && 0 < n < 0xFFFF_FFFF,
        None => (n == 0 || n == 0xFFFF_FFFF) && shown.is_not_offered(),
    }
}

/// What the information reply says: capacities, alerts and cycles are each in their place, and a
/// capacity or a cycle count that is 0, or a capacity that is all ones, is not known. A reply of
/// fewer than 36 bytes says nothing, and no reply at all is as good as an empty one.
pub proof fn information_is_read_in_place(r: RepliesView, b: Seq<u8>)
    requires
        r.information == Some(b) || r.information is None && b.len() == 0,
    ensures
        ({
            let report = report_of(r);
            let cycles = four_bytes(b, 32);
            &&& b.len() >= 36 ==> {
                &&& shows_known(report.designed_capacity_mwh, four_bytes(b, 12))
                &&& shows_known(report.full_charged_capacity_mwh, four_bytes(b, 16))
                &&& report.low_battery_capacity_1.get() == Some(four_bytes(b, 20) as u32)
                &&& report.low_battery_capacity_2.get() == Some(four_bytes(b, 24) as u32)
                &&& report.critical_bias.get() == Some(four_bytes(b, 28) as u32)
                &&& cycles > 0 ==> report.cycle_count.get() == Some(cycles as u32)
                &&& cycles == 0 ==> report.cycle_count.is_not_offered()
                &&& report.chemistry.get() == Some(
                    chemistry_name(
                        uppercase(trimmed(code_chars(seq![b[8], b[9], b[10], b[11]]))),
                    ),
                )
                &&& report.capacity_is_relative <==> four_bytes(b, 0) / 0x4000_0000 % 2 == 1
                &&& report.is_system_battery <==> four_bytes(b, 0) >= 0x8000_0000
            }
            &&& b.len() < 36 ==> {
                &&& report.designed_capacity_mwh.is_not_offered()
                &&& report.full_charged_capacity_mwh.is_not_offered()
                &&& report.low_battery_capacity_1.is_not_offered()
                &&& report.low_battery_capacity_2.is_not_offered()
                &&& report.critical_bias.is_not_offered()
                &&& report.cycle_count.is_not_offered()
                &&& report.chemistry.is_not_offered()
                &&& report.health.get() is None
                &&& !report.capacity_is_relative
                &&& !report.is_system_battery
            }
        }),
{
    let c = le32(b, 0);
    assert((c & 0x4000_0000 != 0) == (c / 0x4000_0000 % 2 == 1) && (c & 0x8000_0000 != 0) == (c
        >= 0x8000_0000) && 0u32 & 0x4000_0000 == 0 && 0u32 & 0x8000_0000 == 0) by (bit_vector);
    if b.len() >= 36 {
        assert(b.subrange(8, 12) =~= seq![b[8], b[9], b[10], b[11]]);
    }
}

/// Health is the full charge in parts of the design capacity, and the charge level the present
/// charge in parts of the full charge; each is there exactly where both figures are, and health
/// not for a pack that counts in percent.
pub proof fn shares_are_of_the_right_whole(r: RepliesView)
    ensures
        ({
            let report = report_of(r);
            let design = report.designed_capacity_mwh.get();
            let full = report.full_charged_capacity_mwh.get();
            let now = report.current_capacity_mwh.get();
            &&& match report.health.get() {
                Some(h) => !report.capacity_is_relative && full == Some(h.part as u32) && design
                    == Some(h.whole as u32),
                None => if report.capacity_is_relative {
                    report.health.is_without(UnavailableView::NotApplicable)
                } else {
                    (full is None || design is None) && report.health.is_without(
                        UnavailableView::ImplausibleValue(
                            "design or full-charge capacity reported as 0"@,
                        ),
                    )
                },
            }
            &&& match report.current_capacity_share.get() {
                Some(c) => now == Some(c.part as u32) && full == Some(c.whole as u32),
                None => (now is None || full is None)
                    && report.current_capacity_share.is_not_offered(),
            }
        }),
{
}

/// A rate from its four bytes: a number of 31 bits and a sign, where the smallest means that it
/// is not known.
pub open spec fn shows_rate(shown: ReadingView<i32>, n: int) -> bool {
    match shown.get() {
        Some(rate) => if n < 0x8000_0000 {
            rate == n
        } else {
            rate == n - 0x1_0000_0000 && n != 0x8000_0000
        },
        None => n == 0x8000_0000 && shown.is_not_offered(),
    }
}

/// What the status reply says: the state, the present charge, the voltage and the rate, each in
/// its place. A reply of fewer than 16 bytes says nothing, and no reply at all is as good as an
/// empty one.
pub proof fn status_is_read_in_place(r: RepliesView, b: Seq<u8>)
    requires
        r.status == Some(b) || r.status is None && b.len() == 0,
    ensures
        ({
            let report = report_of(r);
            &&& b.len() >= 16 ==> {
                &&& report.power_state.get() == Some(PowerState::of_bits(four_bytes(b, 0) as u32))
                &&& shows_known(report.current_capacity_mwh, four_bytes(b, 4))
                &&& shows_known(report.voltage_mv, four_bytes(b, 8))
                &&& shows_rate(report.charge_rate_mw, four_bytes(b, 12))
            }
            &&& b.len() < 16 ==> {
                &&& report.power_state.is_not_offered()
                &&& report.current_capacity_mwh.is_not_offered()
                &&& report.voltage_mv.is_not_offered()
                &&& report.charge_rate_mw.is_not_offered()
                &&& report.full_runtime_s.is_not_offered()
            }
        }),
{
    let n = le32(b, 12);
    assert((n < 0x8000_0000 ==> (n as i32) == n) && (n >= 0x8000_0000 ==> (n as i32) == n
        - 0x1_0000_0000)) by (bit_vector);
}

/// The state that the bits stand for: bit 3 is critical whatever else is set, then bit 2 is
/// charging, bit 1 discharging, and bit 0 alone means on line power.
pub proof fn the_first_state_bit_decides(bits: u32)
    ensures
        ({
            let state = PowerState::of_bits(bits);
            let critical = bits / 8 % 2 == 1;
            let charging = bits / 4 % 2 == 1;
            let discharging = bits / 2 % 2 == 1;
            let on_line = bits % 2 == 1;
            &&& state == PowerState::Critical <==> critical
            &&& state == PowerState::Charging <==> !critical && charging
            &&& state == PowerState::Discharging <==> !critical && !charging && discharging
            &&& state == PowerState::OnLineNotCharging <==> !critical && !charging && !discharging
                && on_line
            &&& state == PowerState::Unknown <==> !critical && !charging && !discharging && !on_line
        }),
{
    assert((bits & 8 != 0) == (bits / 8 % 2 == 1) && (bits & 4 != 0) == (bits / 4 % 2 == 1))
        by (bit_vector);
    assert((bits & 2 != 0) == (bits / 2 % 2 == 1) && (bits & 1 != 0) == (bits % 2 == 1))
        by (bit_vector);
}

/// How long a full pack would last: so many whole seconds that the present drain uses up no more
/// than the full charge in them, and more in one second longer. It is there exactly while the
/// pack drains and its full charge is known, and as large as its field can hold.
pub proof fn a_full_pack_lasts_as_long_as_its_drain_lets_it(r: RepliesView)
    ensures
        ({
            let report = report_of(r);
            let full = report.full_charged_capacity_mwh.get();
            let rate = report.charge_rate_mw.get();
            match report.full_runtime_s.get() {
                Some(s) => full matches Some(f) && rate matches Some(w) && w < 0 && {
                    ||| s * (-w) <= f * 3600 && f * 3600 < (s + 1) * (-w)
                    ||| s == u32::MAX && s * (-w) <= f * 3600
                },
                None => match rate {
                    Some(w) => (full is None || w >= 0) && report.full_runtime_s.is_without(
                        UnavailableView::NotApplicable,
                    ),
                    None => report.full_runtime_s.is_not_offered(),
                },
            }
        }),
{
    let report = report_of(r);
    if let Some(s) = report.full_runtime_s.get() {
        let f = report.full_charged_capacity_mwh.get()->0;
        let w = report.charge_rate_mw.get()->0;
        let need = f * 3600;
        let drain = -w;
        let q = need / drain;
        assert(q * drain <= need && need < (q + 1) * drain) by (nonlinear_arith)
            requires
                drain > 0,
                q == need / drain,
        ;
        if q > u32::MAX {
            assert(u32::MAX * drain <= need) by (nonlinear_arith)
                requires
                    drain > 0,
                    q * drain <= need,
                    q > u32::MAX,
            ;
        }
    }
}

/// A date in its reply: the day, the month, and the year in two bytes. It is there where it is a
/// possible one behind 1980, and written with the year first, the parts with a dash between them
/// and with two digits at least.
pub proof fn a_date_is_written_year_first(r: RepliesView, b: Seq<u8>)
    requires
        r.manufacture_date == Some(b) || r.manufacture_date is None && b.len() == 0,
    ensures
        ({
            let (day, month, year) = (b[0], b[1], b[2] + 256 * b[3]);
            match report_of(r).manufacture_date.get() {
                Some(s) => {
                    let n = s.len() as int;
                    &&& b.len() >= 4 && year >= 1981 && 1 <= month <= 12 && 1 <= day <= 31
                    &&& n >= 10
                    &&& digits_value(s.take(n - 6)) == year
                    &&& s[n - 6] == '-'
                    &&& digits_value(s.subrange(n - 5, n - 3)) == month
                    &&& s[n - 3] == '-'
                    &&& digits_value(s.subrange(n - 2, n)) == day
                },
                None => if b.len() < 4 {
                    report_of(r).manufacture_date.is_not_offered()
                } else {
                    (year <= 1980 || month == 0 || month > 12 || day == 0 || day > 31) && report_of(
                        r,
                    ).manufacture_date.is_without(
                        UnavailableView::ImplausibleValue("manufacture date out of range"@),
                    )
                },
            }
        }),
{
    reveal_strlit("-");
    if let Some(s) = report_of(r).manufacture_date.get() {
        let (day, month, year) = (b[0], b[1], le16(b, 2));
        padding_keeps_the_number(year as nat, 4);
        padding_keeps_the_number(month as nat, 2);
        padding_keeps_the_number(day as nat, 2);
        let n = s.len() as int;
        assert(s.take(n - 6) =~= padded(year as nat, 4));
        assert(s.subrange(n - 5, n - 3) =~= padded(month as nat, 2));
        assert(s.subrange(n - 2, n) =~= padded(day as nat, 2));
    }
}

/// The temperature is a tenth of a degree for each unit of its number, less 273.15 degrees, where
/// that lies between -40 and 100; 0 and all ones mean that it is not known. The runtime is its
/// number in seconds, unless that is all ones.
pub proof fn temperature_and_runtime_are_numbers(r: RepliesView)
    ensures
        ({
            let report = report_of(r);
            &&& match r.temperature {
                Some(b) => {
                    let k = four_bytes(b, 0);
                    let centi = 10 * k - 27315;
                    if b.len() < 4 || k == 0 || k == 0xFFFF_FFFF {
                        report.temperature_centi_c.is_not_offered()
                    } else if -4000 <= centi <= 10000 {
                        report.temperature_centi_c.shows(Some(centi as i32))
                    } else {
                        report.temperature_centi_c.is_without(
                            UnavailableView::ImplausibleValue(signed_tenths(k - 2731) + " C"@),
                        )
                    }
                },
                None => report.temperature_centi_c.is_not_offered(),
            }
            &&& match r.estimated_time {
                Some(b) => if b.len() < 4 {
                    report.estimated_runtime_s.is_not_offered()
                } else if four_bytes(b, 0) == 0xFFFF_FFFF {
                    report.estimated_runtime_s.is_without(UnavailableView::NotApplicable)
                } else {
                    report.estimated_runtime_s.shows(Some(four_bytes(b, 0) as u32))
                },
                None => report.estimated_runtime_s.is_not_offered(),
            }
        }),
{
}

/// A name in its reply: UTF-16 up to a NUL, without the blanks around it; an empty one, or a reply
/// without a whole character, is none. Each name comes from its own reply.
pub proof fn names_come_from_their_replies(r: RepliesView)
    ensures
        ({
            let report = report_of(r);
            &&& report.device_name == string_in(r.device_name)
            &&& report.manufacturer == string_in(r.manufacturer)
            &&& report.serial_number == string_in(r.serial_number)
            &&& report.unique_id == string_in(r.unique_id)
        }),
        forall|b: Seq<u8>|
            match (#[trigger] string_in(Some(b))).get() {
                Some(s) => b.len() >= 2 && s == trimmed(utf16_text(before_nul(units_of(b))))
                    && s.len() > 0,
                None => (b.len() < 2 || trimmed(utf16_text(before_nul(units_of(b)))).len() == 0)
                    && string_in(Some(b)).is_not_offered(),
            },
        string_in(None).is_not_offered(),
{
}

/// The chemistry codes that have a name of their own.
pub open spec fn is_known_code(code: Seq<char>) -> bool {
    code == "LION"@ || code == "LI-I"@ || code == "LIP"@ || code == "NIMH"@ || code == "NICD"@
        || code == "PBAC"@ || code == "RAM"@
}

/// Chemistries are told apart: two known codes have the same name only where both mean lithium
/// ion, and a code that is not known stands for itself.
pub proof fn chemistries_are_told_apart(a: Seq<char>, b: Seq<char>)
    ensures
        is_known_code(a) && is_known_code(b) && a != b && chemistry_name(a) == chemistry_name(b)
            ==> (a == "LION"@ || a == "LI-I"@) && (b == "LION"@ || b == "LI-I"@),
        chemistry_name("LION"@) == chemistry_name("LI-I"@),
        !is_known_code(a) && a.len() > 0 ==> chemistry_name(a) == a,
        is_known_code(a) ==> chemistry_name(a) != a && chemistry_name(a) != "Unknown"@,
        a.len() == 0 ==> chemistry_name(a) == "Unknown"@,
        is_known_code(a) ==> {
            &&& a == "LION"@ || a == "LI-I"@ <==> chemistry_name(a) == "Lithium Ion"@
            &&& a == "LIP"@ <==> chemistry_name(a) == "Lithium Polymer"@
            &&& a == "NIMH"@ <==> chemistry_name(a) == "Nickel Metal Hydride"@
            &&& a == "NICD"@ <==> chemistry_name(a) == "Nickel Cadmium"@
            &&& a == "PBAC"@ <==> chemistry_name(a) == "Lead Acid"@
            &&& a == "RAM"@ <==> chemistry_name(a) == "Rechargeable Alkaline-Manganese"@
        },
{
    reveal_strlit("LION");
    reveal_strlit("LI-I");
    reveal_strlit("LIP");
    reveal_strlit("NIMH");
    reveal_strlit("NICD");
    reveal_strlit("PBAC");
    reveal_strlit("RAM");
    reveal_strlit("Lithium Ion");
    reveal_strlit("Lithium Polymer");
    reveal_strlit("Nickel Metal Hydride");
    reveal_strlit("Nickel Cadmium");
    reveal_strlit("Lead Acid");
    reveal_strlit("Rechargeable Alkaline-Manganese");
    reveal_strlit("Unknown");
    assert("LION"@.len() == 4 && "LION"@[2] == 'O');
    assert("LI-I"@.len() == 4 && "LI-I"@[2] == '-');
    assert("LIP"@.len() == 3 && "LIP"@[0] == 'L');
    assert("NIMH"@.len() == 4 && "NIMH"@[2] == 'M');
    assert("NICD"@.len() == 4 && "NICD"@[2] == 'C');
    assert("PBAC"@.len() == 4 && "PBAC"@[2] == 'A');
    assert("RAM"@.len() == 3 && "RAM"@[0] == 'R');
    assert("Lithium Ion"@.len() == 11);
    assert("Lithium Polymer"@.len() == 15);
    assert("Nickel Metal Hydride"@.len() == 20);
    assert("Nickel Cadmium"@.len() == 14);
    assert("Lead Acid"@.len() == 9);
    assert("Rechargeable Alkaline-Manganese"@.len() == 31);
    assert("Unknown"@.len() == 7);
}

/// The characters of a code are its bytes other than 0, in their order.
pub proof fn codes_skip_the_nuls(raw: Seq<u8>, b: u8)
    ensures
        code_chars(Seq::empty()) == Seq::<char>::empty(),
        b != 0 ==> code_chars(raw.push(b)) == code_chars(raw).push(b as char),
        b == 0 ==> code_chars(raw.push(b)) == code_chars(raw),
{
    assert(raw.push(b).drop_last() =~= raw);
}

/// One unreadable pack hides no other: it adds nothing to the list, and a readable one adds
/// itself at the end.
pub proof fn an_unreadable_pack_hides_no_other(
    packs: Seq<Result<BatteryReport, WinError>>,
    pack: Result<BatteryReport, WinError>,
)
    ensures
        readable(Seq::empty()).len() == 0,
        readable(packs.push(pack)) == match pack {
            Ok(report) => readable(packs).push(report),
            Err(_) => readable(packs),
        },
{
    assert(packs.push(pack).drop_last() =~= packs);
}

} // verus!
