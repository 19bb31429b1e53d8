//! Model-specific registers and the temperature register of AMD Zen parts.
//!
//! The module that reads them exposes no thermal-throttle status register at all, so there
//! is no throttle signal on these parts. Temperature is not an MSR on Zen: it lives in the
//! SMN block, which is reached through PCI config space.
use vstd::prelude::*;

use crate::measure::Celsius;
use crate::text::{
    containing_is_standing_somewhere, contains, contains_text, lowercase, stands_at, to_lowercase,
};
use crate::win::{WinError, WinResult};

verus! {

pub const MSR_APERF_RO: u32 = 0xC000_00E8;
pub const MSR_MPERF_RO: u32 = 0xC000_00E7;
pub const MSR_PWR_UNIT: u32 = 0xC001_0299;
pub const MSR_PKG_ENERGY_STAT: u32 = 0xC001_029B;

/// The units of the power registers: each is `1 / 2^n` of a watt or a joule.
#[derive(Debug, Clone, Copy, PartialEq, Eq, Structural)]
pub struct PowerUnits {
    pub watt_exponent: u8,
    pub joule_exponent: u8,
}

/// MSR_PWR_UNIT: bits 3:0 power unit, bits 12:8 energy unit.
pub open spec fn power_units(raw: u64) -> PowerUnits {
    PowerUnits { watt_exponent: (raw & 0xF) as u8, joule_exponent: ((raw >> 8) & 0x1F) as u8 }
}

/// Decode MSR_PWR_UNIT.
pub fn decode_power_units(raw: u64) -> (u: PowerUnits)
    ensures
        u == power_units(raw),
        u.watt_exponent < 16,
        u.joule_exponent < 32,
{
    assert(raw & 0xF < 16 && (raw >> 8) & 0x1F < 32) by (bit_vector);
    PowerUnits { watt_exponent: (raw & 0xF) as u8, joule_exponent: ((raw >> 8) & 0x1F) as u8 }
}

/// The one word that a register read hands back: a call that wrote none has failed, and
/// `context` says which call it was.
pub fn read_word(written: usize, word: u64, context: &'static str) -> (r: WinResult<u64>)
    ensures
        r == if written < 1 {
            Err::<u64, WinError>(WinError { context, code: 0 })
        } else {
            Ok(word)
        },
{
    if written < 1 {
        return Err(WinError::new(context, 0));
    }
    Ok(word)
}

/// The reported-temperature control register, valid across Family 17h and 19h (Zen 1 through
/// Zen 4).
pub const ZEN_REPORTED_TEMP_CTRL_BASE: u32 = 0x0005_9800;

/// Raw temperature occupies bits 31:21, in eighths of a degree.
pub const ZEN_CUR_TEMP_SHIFT: u32 = 21;

/// Bit 19 selects the range from -49 to 206 degrees.
pub const ZEN_CUR_TEMP_RANGE_SEL_MASK: u32 = 0x0008_0000;

/// Bits 17:16; both set also implies the offset range.
pub const ZEN_CUR_TEMP_TJ_SEL_MASK: u32 = 0x0003_0000;

/// The register counts from -49 degrees rather than from zero.
pub open spec fn offset_range(raw: u32) -> bool {
    raw & ZEN_CUR_TEMP_RANGE_SEL_MASK != 0 || raw & ZEN_CUR_TEMP_TJ_SEL_MASK
        == ZEN_CUR_TEMP_TJ_SEL_MASK
}

/// The temperature that the register reports, in eighths of a degree, less an offset.
pub open spec fn zen_eighths(raw: u32, tctl_offset: Celsius) -> int {
    (raw >> ZEN_CUR_TEMP_SHIFT) - (if offset_range(raw) {
        392int
    } else {
        0int
    }) - tctl_offset.eighths
}

/// Decode the temperature register.
pub fn zen_temperature_celsius(raw: u32, tctl_offset: Celsius) -> (t: Celsius)
    requires
        -1_000_000 <= tctl_offset.eighths <= 1_000_000,
    ensures
        t.eighths == zen_eighths(raw, tctl_offset),
{
    assert(raw >> 21u32 <= 2047) by (bit_vector);
    let mut eighths: i32 = (raw >> ZEN_CUR_TEMP_SHIFT) as i32;
    if (raw & ZEN_CUR_TEMP_RANGE_SEL_MASK) != 0 || (raw & ZEN_CUR_TEMP_TJ_SEL_MASK)
        == ZEN_CUR_TEMP_TJ_SEL_MASK {
        eighths = eighths - 49 * 8;
    }
    Celsius { eighths: eighths - tctl_offset.eighths }
}

/// The correction from reported to true temperature, in degrees, for a brand string in lower
/// case. These parts report a temperature that is deliberately biased upwards, so that their
/// fan curves ramp earlier.
pub open spec fn tctl_offset(normalized: Seq<char>) -> int {
    if contains_text(normalized, "amd ryzen 5 1600x"@) || contains_text(
        normalized,
        "amd ryzen 7 1700x"@,
    ) || contains_text(normalized, "amd ryzen 7 1800x"@) {
        20
    } else if contains_text(normalized, "amd ryzen 7 2700x"@) {
        10
    } else if contains_text(normalized, "amd ryzen threadripper 19"@) || contains_text(
        normalized,
        "amd ryzen threadripper 29"@,
    ) {
        27
    } else {
        0
    }
}

/// The correction for a brand string that is already in lower case; zero when none applies.
pub fn tctl_offset_of_normalized(normalized: &str) -> (t: Celsius)
    ensures
        t.eighths == 8 * tctl_offset(normalized@),
{
    if contains(normalized, "amd ryzen 5 1600x") || contains(normalized, "amd ryzen 7 1700x")
        || contains(normalized, "amd ryzen 7 1800x") {
        Celsius { eighths: 160 }
    } else if contains(normalized, "amd ryzen 7 2700x") {
        Celsius { eighths: 80 }
    } else if contains(normalized, "amd ryzen threadripper 19") || contains(
        normalized,
        "amd ryzen threadripper 29",
    ) {
        Celsius { eighths: 216 }
    } else {
        Celsius { eighths: 0 }
    }
}

/// The correction from reported to true temperature for a CPU brand string; zero when none
/// applies.
pub fn tctl_offset_celsius(brand_string: &str) -> (t: Celsius)
    ensures
        t.eighths == 8 * tctl_offset(lowercase(brand_string@)),
{
    let normalized = to_lowercase(brand_string);
    tctl_offset_of_normalized(normalized.as_str())
}

// ---------------------------------------------------------------------------
// Laws
// ---------------------------------------------------------------------------

/// The offset range is the default range shifted down by 49 degrees.
pub proof fn the_offset_range_is_shifted_by_49_degrees(raw: u32, offset: Celsius)
    requires
        !offset_range(raw),
    ensures
        zen_eighths(raw | ZEN_CUR_TEMP_RANGE_SEL_MASK, offset) == zen_eighths(raw, offset) - 49 * 8,
        zen_eighths(raw | ZEN_CUR_TEMP_TJ_SEL_MASK, offset) == zen_eighths(raw, offset) - 49 * 8,
{
    assert((raw | 0x0008_0000u32) & 0x0008_0000u32 != 0) by (bit_vector);
    assert((raw | 0x0003_0000u32) & 0x0003_0000u32 == 0x0003_0000u32) by (bit_vector);
    assert((raw | 0x0008_0000u32) >> 21u32 == raw >> 21u32) by (bit_vector);
    assert((raw | 0x0003_0000u32) >> 21u32 == raw >> 21u32) by (bit_vector);
}

/// A biased part is corrected downwards by its bias.
pub proof fn a_bias_is_taken_off(raw: u32, offset: Celsius)
    ensures
        zen_eighths(raw, offset) == zen_eighths(raw, Celsius { eighths: 0 }) - offset.eighths,
{
}

/// Where the units stand in their register: the power unit in bits 0 to 3, the energy unit in bits
/// 8 to 12.
pub proof fn units_are_in_their_bits(raw: u64)
    ensures
        power_units(raw).watt_exponent == raw % 16,
        power_units(raw).joule_exponent == raw / 256 % 32,
{
    assert((raw & 0xF) as u8 == raw % 16 && ((raw >> 8) & 0x1F) as u8 == raw / 256 % 32) by (
    bit_vector);
}

/// The temperature stands in the bits from 21 on, in eighths of a degree. It counts from -49
/// degrees where bit 19 or both bits 16 and 17 are set, and the part's bias is taken off.
pub proof fn the_temperature_is_in_its_bits(raw: u32, offset: Celsius)
    ensures
        zen_eighths(raw, offset) == raw as int / 2_097_152 - (if raw as int / 524_288 % 2 == 1
            || raw as int / 65_536 % 4 == 3 {
            8 * 49
        } else {
            0
        }) - offset.eighths,
{
    assert(raw >> 21u32 == raw / 2_097_152 && (raw & 0x0008_0000u32 != 0) == (raw / 524_288 % 2
        == 1) && (raw & 0x0003_0000u32 == 0x0003_0000u32) == (raw / 65_536 % 4 == 3)) by (bit_vector);
}

/// The text names this part somewhere.
pub open spec fn names(brand: Seq<char>, part: Seq<char>) -> bool {
    exists|p: int| #[trigger] stands_at(brand, part, p)
}

/// The bias of a part by its name: 20 degrees for the first three, 10 for the 2700X, 27 for the
/// two families of Threadripper, and none for any other.
pub proof fn the_bias_goes_by_the_name(brand: Seq<char>)
    ensures
        ({
            let first = names(brand, "amd ryzen 5 1600x"@) || names(brand, "amd ryzen 7 1700x"@)
                || names(brand, "amd ryzen 7 1800x"@);
            let second = names(brand, "amd ryzen 7 2700x"@);
            let third = names(brand, "amd ryzen threadripper 19"@) || names(
                brand,
                "amd ryzen threadripper 29"@,
            );
            &&& first ==> tctl_offset(brand) == 20
            &&& second && !first ==> tctl_offset(brand) == 10
            &&& third && !first && !second ==> tctl_offset(brand) == 27
            &&& !first && !second && !third ==> tctl_offset(brand) == 0
        }),
{
    containing_is_standing_somewhere(brand, "amd ryzen 5 1600x"@);
    containing_is_standing_somewhere(brand, "amd ryzen 7 1700x"@);
    containing_is_standing_somewhere(brand, "amd ryzen 7 1800x"@);
    containing_is_standing_somewhere(brand, "amd ryzen 7 2700x"@);
    containing_is_standing_somewhere(brand, "amd ryzen threadripper 19"@);
    containing_is_standing_somewhere(brand, "amd ryzen threadripper 29"@);
}

/// A word counts only where it was written.
pub proof fn a_word_counts_where_it_was_written(
    written: usize,
    word: u64,
    context: &'static str,
    r: WinResult<u64>,
)
    requires
        call_ensures(read_word, (written, word, context), r),
    ensures
        r is Ok <==> written > 0,
        r matches Ok(w) ==> w == word,
        r matches Err(e) ==> e.context == context,
{
}

} // verus!
