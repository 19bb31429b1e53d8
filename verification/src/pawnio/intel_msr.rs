//! Model-specific registers of Intel parts.
//!
//! The module that reads them has an allow-list; the registers below are on it. Bit layouts
//! are the stable, cross-generation encodings of the Intel SDM, Vol. 3B, section 14.9 (RAPL)
//! and section 16.6 (thermal monitoring).
use vstd::prelude::*;

use crate::measure::{cap, capped, Frequency, Power};
use crate::text::number::{nearest, nearest_is_near, round_ratio};

verus! {

pub const MSR_IA32_MPERF: u32 = 0x0000_00E7;
pub const MSR_IA32_APERF: u32 = 0x0000_00E8;
pub const MSR_RAPL_POWER_UNIT: u32 = 0x0000_0606;
pub const MSR_PKG_POWER_LIMIT: u32 = 0x0000_0610;
pub const MSR_PKG_ENERGY_STATUS: u32 = 0x0000_0611;
pub const MSR_IA32_TEMPERATURE_TARGET: u32 = 0x0000_01A2;
pub const MSR_IA32_PACKAGE_THERM_STATUS: u32 = 0x0000_01B1;

/// The units of the power registers: each is `1 / 2^n` of a watt, a joule or a second.
#[derive(Debug, Clone, Copy, PartialEq, Eq, Structural)]
pub struct RaplUnits {
    pub watt_exponent: u8,
    pub joule_exponent: u8,
    pub second_exponent: u8,
}

/// MSR_RAPL_POWER_UNIT: bits 3:0 power unit, bits 12:8 energy unit, bits 19:16 time unit.
pub open spec fn rapl_units(raw: u64) -> RaplUnits {
    RaplUnits {
        watt_exponent: (raw & 0xF) as u8,
        joule_exponent: ((raw >> 8) & 0x1F) as u8,
        second_exponent: ((raw >> 16) & 0xF) as u8,
    }
}

/// Decode MSR_RAPL_POWER_UNIT.
pub fn decode_rapl_units(raw: u64) -> (u: RaplUnits)
    ensures
        u == rapl_units(raw),
        u.watt_exponent < 16,
        u.joule_exponent < 32,
        u.second_exponent < 16,
{
    assert(raw & 0xF < 16 && (raw >> 8) & 0x1F < 32 && (raw >> 16) & 0xF < 16) by (bit_vector);
    RaplUnits {
        watt_exponent: (raw & 0xF) as u8,
        joule_exponent: ((raw >> 8) & 0x1F) as u8,
        second_exponent: ((raw >> 16) & 0xF) as u8,
    }
}

/// Two to the power of a unit's exponent.
pub open spec fn unit_divisor(exponent: u8) -> u64 {
    1u64 << exponent
}

/// Two to the power of a unit's exponent.
pub(crate) fn divisor(exponent: u8) -> (d: u64)
    requires
        exponent < 32,
    ensures
        d == unit_divisor(exponent),
        0 < d <= 0x8000_0000,
{
    assert(exponent < 32 ==> 0 < (1u64 << exponent) <= 0x8000_0000) by (bit_vector);
    1u64 << exponent
}

/// The caps on the power of the package that the firmware has configured.
#[derive(Debug, Clone, Copy, PartialEq, Eq, Structural)]
pub struct PowerLimits {
    /// The sustained-power cap.
    pub pl1: Power,
    pub pl1_enabled: bool,
    /// The short-term boost cap.
    pub pl2: Power,
    pub pl2_enabled: bool,
}

/// A number of power units.
pub open spec fn units_of_power(count: u64, watt_exponent: u8) -> Power {
    Power {
        microwatts: capped(
            nearest((count * 1_000_000) as nat, unit_divisor(watt_exponent) as nat),
        ),
    }
}

/// MSR_PKG_POWER_LIMIT: bits 14:0 are PL1 in power units, bit 15 enables it; bits 46:32 are
/// PL2 in power units, bit 47 enables it. The time-window fields are not decoded.
pub open spec fn power_limits(raw: u64, watt_exponent: u8) -> PowerLimits {
    PowerLimits {
        pl1: units_of_power(raw & 0x7FFF, watt_exponent),
        pl1_enabled: (raw >> 15) & 1 != 0,
        pl2: units_of_power((raw >> 32) & 0x7FFF, watt_exponent),
        pl2_enabled: (raw >> 47) & 1 != 0,
    }
}

fn power_of(count: u64, watt_exponent: u8) -> (p: Power)
    requires
        count <= 0x7FFF,
        watt_exponent < 32,
    ensures
        p == units_of_power(count, watt_exponent),
{
    Power {
        microwatts: cap(round_ratio(count as u128 * 1_000_000, divisor(watt_exponent) as u128)),
    }
}

/// Decode MSR_PKG_POWER_LIMIT.
pub fn decode_power_limits(raw: u64, units: &RaplUnits) -> (l: PowerLimits)
    requires
        units.watt_exponent < 32,
    ensures
        l == power_limits(raw, units.watt_exponent),
{
    assert(raw & 0x7FFF <= 0x7FFF && (raw >> 32) & 0x7FFF <= 0x7FFF) by (bit_vector);
    PowerLimits {
        pl1: power_of(raw & 0x7FFF, units.watt_exponent),
        pl1_enabled: (raw >> 15) & 1 != 0,
        pl2: power_of((raw >> 32) & 0x7FFF, units.watt_exponent),
        pl2_enabled: (raw >> 47) & 1 != 0,
    }
}

/// MSR_IA32_TEMPERATURE_TARGET: bits 23:16 hold Tjmax in degrees Celsius.
pub open spec fn tjmax(raw: u64) -> u8 {
    ((raw >> 16) & 0xFF) as u8
}

/// Decode MSR_IA32_TEMPERATURE_TARGET.
pub fn decode_tjmax(raw: u64) -> (t: u8)
    ensures
        t == tjmax(raw),
{
    ((raw >> 16) & 0xFF) as u8
}

#[derive(Debug, Clone, Copy, PartialEq, Eq, Structural)]
pub struct ThermalStatus {
    /// The package is throttling for thermal reasons right now.
    pub throttling_now: bool,
    /// The package has throttled for thermal reasons at some point since the log was last
    /// cleared.
    pub throttled_since_clear: bool,
    pub temperature_celsius: i16,
}

/// MSR_IA32_PACKAGE_THERM_STATUS: bit 0 is the live thermal-throttle status, bit 1 the sticky
/// log, bits 22:16 the digital readout, which counts down from Tjmax.
pub open spec fn thermal_status(raw: u64, tjmax: u8) -> ThermalStatus {
    ThermalStatus {
        throttling_now: raw & 0b1 != 0,
        throttled_since_clear: (raw >> 1) & 0b1 != 0,
        temperature_celsius: (tjmax - ((raw >> 16) & 0x7F)) as i16,
    }
}

/// Decode MSR_IA32_PACKAGE_THERM_STATUS.
pub fn decode_thermal_status(raw: u64, tjmax: u8) -> (s: ThermalStatus)
    ensures
        s == thermal_status(raw, tjmax),
        -127 <= s.temperature_celsius <= 255,
{
    assert((raw >> 16) & 0x7F <= 127) by (bit_vector);
    let readout: i16 = ((raw >> 16) & 0x7F) as i16;
    ThermalStatus {
        throttling_now: raw & 0b1 != 0,
        throttled_since_clear: (raw >> 1) & 0b1 != 0,
        temperature_celsius: tjmax as i16 - readout,
    }
}

/// The thermal status with its sticky log bit cleared. Written back, it makes the next sample
/// window reflect only the throttling that happens from then on.
pub fn clear_thermal_log(current: u64) -> (cleared: u64)
    ensures
        cleared == current & !0b10u64,
{
    current & !0b10u64
}

/// Bits 31:0 of an energy counter; the upper bits are reserved.
pub fn energy_count(raw: u64) -> (count: u32)
    ensures
        count == raw & 0xFFFF_FFFF,
{
    assert(raw & 0xFFFF_FFFF <= 0xFFFF_FFFF) by (bit_vector);
    (raw & 0xFFFF_FFFF) as u32
}

/// The effective frequency over a sampling window.
pub open spec fn effective_clock(aperf_delta: u64, mperf_delta: u64, base_clock_mhz: u32) -> Frequency {
    if mperf_delta == 0 {
        Frequency { hertz: 0 }
    } else {
        Frequency {
            hertz: capped(
                nearest((aperf_delta * base_clock_mhz * 1_000_000) as nat, mperf_delta as nat),
            ),
        }
    }
}

/// True effective CPU frequency over a sampling window, from the ratio of APERF to MPERF
/// deltas times the nominal (base) frequency: this reflects actual time spent executing at
/// each P-state, including C-state residency, unlike the raw reported clock.
pub fn effective_clock_mhz(aperf_delta: u64, mperf_delta: u64, base_clock_mhz: u32) -> (f: Frequency)
    ensures
        f == effective_clock(aperf_delta, mperf_delta, base_clock_mhz),
{
    if mperf_delta == 0 {
        return Frequency { hertz: 0 };
    }
    assert(aperf_delta * base_clock_mhz <= 0xFFFF_FFFF_FFFF_FFFF * 0xFFFF_FFFF) by (nonlinear_arith)
        requires
            aperf_delta <= 0xFFFF_FFFF_FFFF_FFFF,
            base_clock_mhz <= 0xFFFF_FFFF,
    ;
    let ticks: u128 = aperf_delta as u128 * base_clock_mhz as u128;
    Frequency { hertz: cap(round_ratio(ticks * 1_000_000, mperf_delta as u128)) }
}

// ---------------------------------------------------------------------------
// Laws
// ---------------------------------------------------------------------------

/// Clearing the thermal log forgets past throttling and nothing else.
pub proof fn clearing_the_log_forgets_only_the_past(raw: u64, tj: u8)
    ensures
        thermal_status(raw & !0b10u64, tj) == (ThermalStatus {
            throttled_since_clear: false,
            ..thermal_status(raw, tj)
        }),
{
    assert((raw & !0b10u64) & 0b1 == raw & 0b1) by (bit_vector);
    assert(((raw & !0b10u64) >> 1) & 0b1 == 0) by (bit_vector);
    assert(((raw & !0b10u64) >> 16) & 0x7F == (raw >> 16) & 0x7F) by (bit_vector);
}

/// A core that is active for the whole window runs at its base clock.
pub proof fn a_fully_active_core_runs_at_base(ticks: u64, base_clock_mhz: u32)
    requires
        ticks > 0,
    ensures
        effective_clock(ticks, ticks, base_clock_mhz) == (Frequency {
            hertz: (base_clock_mhz * 1_000_000) as u64,
        }),
{
    let whole = base_clock_mhz * 1_000_000;
    assert(ticks * base_clock_mhz * 1_000_000 == ticks * whole) by (nonlinear_arith)
        requires
            whole == base_clock_mhz * 1_000_000,
    ;
    assert(ticks * whole == whole * ticks) by (nonlinear_arith);
    vstd::arithmetic::div_mod::lemma_fundamental_div_mod_converse(
        ticks * whole,
        ticks as int,
        whole,
        0,
    );
}

/// A counter that wrapped between two samples still counts what happened between them.
pub proof fn a_wrapped_counter_still_counts(start: u64, ticks: u64)
    ensures
        start.wrapping_add(ticks).wrapping_sub(start) == ticks,
{
}

/// Where the units stand in their register: the power unit in bits 0 to 3, the energy unit in bits
/// 8 to 12 and the time unit in bits 16 to 19.
pub proof fn units_are_in_their_bits(raw: u64)
    ensures
        rapl_units(raw).watt_exponent == raw % 16,
        rapl_units(raw).joule_exponent == raw / 256 % 32,
        rapl_units(raw).second_exponent == raw / 65536 % 16,
{
    assert((raw & 0xF) as u8 == raw % 16 && ((raw >> 8) & 0x1F) as u8 == raw / 256 % 32 && ((raw
        >> 16) & 0xF) as u8 == raw / 65536 % 16) by (bit_vector);
}

/// A unit is a power of two: one with the exponent 0, and twice as many with every step.
pub proof fn every_step_doubles_the_divisor(exponent: u8)
    ensures
        unit_divisor(0) == 1,
        exponent < 63 ==> unit_divisor((exponent + 1) as u8) == 2 * unit_divisor(exponent),
{
    assert(1u64 << 0u8 == 1 && (exponent < 63 ==> 1u64 << ((exponent + 1) as u8) == 2 * (1u64
        << exponent))) by (bit_vector);
}

/// A power is so many units: no more than half a microwatt off, where a watt has `divisor` units.
pub open spec fn is_power(p: Power, units: int, divisor: int) -> bool {
    -divisor <= 2 * (p.microwatts * divisor - 1_000_000 * units) <= divisor
}

proof fn power_is_near(count: u64, watt_exponent: u8)
    requires
        count <= 0x7FFF,
        watt_exponent < 32,
    ensures
        is_power(
            units_of_power(count, watt_exponent),
            count as int,
            unit_divisor(watt_exponent) as int,
        ),
{
    let d = unit_divisor(watt_exponent);
    assert(watt_exponent < 32 ==> 0 < (1u64 << watt_exponent) <= 0x8000_0000) by (bit_vector);
    let n = nearest((count * 1_000_000) as nat, d as nat);
    nearest_is_near((count * 1_000_000) as nat, d as nat);
    assert(n <= u64::MAX) by (nonlinear_arith)
        requires
            2 * (n * d - count * 1_000_000) <= d,
            d > 0,
            count <= 0x7FFF,
    ;
}

/// Where the power limits stand in their register: the sustained one in bits 0 to 14 with bit 15 to
/// enable it, the short one in bits 32 to 46 with bit 47, each counted in power units.
pub proof fn limits_are_in_their_bits(raw: u64, watt_exponent: u8)
    requires
        watt_exponent < 32,
    ensures
        ({
            let l = power_limits(raw, watt_exponent);
            let d = unit_divisor(watt_exponent) as int;
            &&& is_power(l.pl1, raw as int % 32768, d)
            &&& l.pl1_enabled <==> raw as int / 32768 % 2 == 1
            &&& is_power(l.pl2, raw as int / 0x1_0000_0000 % 32768, d)
            &&& l.pl2_enabled <==> raw as int / 0x8000_0000_0000 % 2 == 1
        }),
{
    assert(raw & 0x7FFF == raw % 32768 && ((raw >> 15) & 1 != 0) == (raw / 32768 % 2 == 1) && (raw
        >> 32) & 0x7FFF == raw / 0x1_0000_0000 % 32768 && ((raw >> 47) & 1 != 0) == (raw
        / 0x8000_0000_0000 % 2 == 1)) by (bit_vector);
    power_is_near(raw & 0x7FFF, watt_exponent);
    power_is_near((raw >> 32) & 0x7FFF, watt_exponent);
}

/// Where the thermal figures stand: the highest temperature in bits 16 to 23 of its register; in
/// the status, throttling now in bit 0, throttling since the log was cleared in bit 1, and in bits
/// 16 to 22 how far below the highest temperature the package is.
pub proof fn thermal_figures_are_in_their_bits(raw: u64, tj: u8)
    ensures
        tjmax(raw) == raw as int / 65536 % 256,
        thermal_status(raw, tj).throttling_now <==> raw as int % 2 == 1,
        thermal_status(raw, tj).throttled_since_clear <==> raw as int / 2 % 2 == 1,
        thermal_status(raw, tj).temperature_celsius == tj - raw as int / 65536 % 128,
{
    assert(((raw >> 16) & 0xFF) as u8 == raw / 65536 % 256 && (raw & 0b1 != 0) == (raw % 2 == 1) && (
    (raw >> 1) & 0b1 != 0) == (raw / 2 % 2 == 1) && (raw >> 16) & 0x7F == raw / 65536 % 128) by (
    bit_vector);
}

/// The effective frequency is the base clock times the share of the window in which the core was
/// active: to the nearest hertz, as far as the field goes. Without a window it is nothing.
pub proof fn the_clock_is_the_active_share_of_the_base(
    aperf_delta: u64,
    mperf_delta: u64,
    base_clock_mhz: u32,
)
    ensures
        ({
            let hertz = effective_clock(aperf_delta, mperf_delta, base_clock_mhz).hertz;
            let off = 2 * (hertz * mperf_delta - aperf_delta * base_clock_mhz * 1_000_000);
            &&& mperf_delta == 0 ==> hertz == 0
            &&& mperf_delta > 0 ==> off <= mperf_delta
            &&& mperf_delta > 0 && hertz < u64::MAX ==> -mperf_delta <= off
        }),
{
    let work = (aperf_delta * base_clock_mhz * 1_000_000) as nat;
    assert(aperf_delta * base_clock_mhz >= 0) by (nonlinear_arith)
        requires
            aperf_delta >= 0,
            base_clock_mhz >= 0,
    ;
    if mperf_delta > 0 {
        nearest_is_near(work, mperf_delta as nat);
        let n = nearest(work, mperf_delta as nat);
        if n > u64::MAX {
            assert(u64::MAX * mperf_delta <= n * mperf_delta) by (nonlinear_arith)
                requires
                    u64::MAX <= n,
                    mperf_delta >= 0,
            ;
        }
    }
}

/// The energy counter is the lower half of its register.
pub proof fn the_energy_counter_is_the_lower_half(raw: u64, count: u32)
    requires
        call_ensures(energy_count, (raw,), count),
    ensures
        count == raw % 0x1_0000_0000,
{
    assert(raw & 0xFFFF_FFFF == raw % 0x1_0000_0000) by (bit_vector);
}

} // verus!
