//! NVIDIA telemetry: what NVML's replies mean.
use vstd::prelude::*;

use crate::measure::Power;
use crate::text::{from_utf8_lossy, utf8_lossy};
use crate::win::{WinError, WinResult};

verus! {

/// The result of a call that succeeded.
pub const NVML_SUCCESS: i32 = 0;

// Reasons for which the driver limits the clocks.
pub const REASON_SW_POWER_CAP: u64 = 0x0000_0004;

pub const REASON_HW_SLOWDOWN: u64 = 0x0000_0008;

pub const REASON_SW_THERMAL_SLOWDOWN: u64 = 0x0000_0020;

pub const REASON_HW_THERMAL_SLOWDOWN: u64 = 0x0000_0040;

pub const REASON_HW_POWER_BRAKE: u64 = 0x0000_0080;

/// Why the driver is limiting the clocks right now.
#[derive(Debug, Clone, Copy, PartialEq, Eq, Structural)]
pub struct ThrottleReasons {
    pub sw_power_cap: bool,
    pub hw_slowdown: bool,
    pub sw_thermal_slowdown: bool,
    pub hw_thermal_slowdown: bool,
    pub hw_power_brake: bool,
}

impl Default for ThrottleReasons {
    fn default() -> (r: Self)
        ensures
            r == Self::of_bits(0),
    {
        assert(0u64 & 0x04 == 0 && 0u64 & 0x08 == 0 && 0u64 & 0x20 == 0 && 0u64 & 0x40 == 0 && 0u64
            & 0x80 == 0) by (bit_vector);
        ThrottleReasons {
            sw_power_cap: false,
            hw_slowdown: false,
            sw_thermal_slowdown: false,
            hw_thermal_slowdown: false,
            hw_power_brake: false,
        }
    }
}

impl ThrottleReasons {
    /// The reasons that a bitmask names.
    pub open spec fn of_bits(bits: u64) -> Self {
        ThrottleReasons {
            sw_power_cap: bits & REASON_SW_POWER_CAP != 0,
            hw_slowdown: bits & REASON_HW_SLOWDOWN != 0,
            sw_thermal_slowdown: bits & REASON_SW_THERMAL_SLOWDOWN != 0,
            hw_thermal_slowdown: bits & REASON_HW_THERMAL_SLOWDOWN != 0,
            hw_power_brake: bits & REASON_HW_POWER_BRAKE != 0,
        }
    }

    /// The reasons that a bitmask names.
    pub fn from_bits(bits: u64) -> (r: Self)
        ensures
            r == Self::of_bits(bits),
    {
        ThrottleReasons {
            sw_power_cap: bits & REASON_SW_POWER_CAP != 0,
            hw_slowdown: bits & REASON_HW_SLOWDOWN != 0,
            sw_thermal_slowdown: bits & REASON_SW_THERMAL_SLOWDOWN != 0,
            hw_thermal_slowdown: bits & REASON_HW_THERMAL_SLOWDOWN != 0,
            hw_power_brake: bits & REASON_HW_POWER_BRAKE != 0,
        }
    }

    /// Some reason holds.
    pub open spec fn has_any(self) -> bool {
        self.sw_power_cap || self.hw_slowdown || self.sw_thermal_slowdown
            || self.hw_thermal_slowdown || self.hw_power_brake
    }

    /// Whether some reason holds.
    pub fn any(&self) -> (b: bool)
        ensures
            b == self.has_any(),
    {
        self.sw_power_cap || self.hw_slowdown || self.sw_thermal_slowdown
            || self.hw_thermal_slowdown || self.hw_power_brake
    }
}

/// What a call that returned `rc` says: the value it handed out, or the error under the name
/// of the call.
pub fn nvml_result<T>(rc: i32, value: T, context: &'static str) -> (r: WinResult<T>)
    ensures
        r == if rc == NVML_SUCCESS {
            Ok::<T, WinError>(value)
        } else {
            Err(WinError { context, code: rc as u32 })
        },
{
    if rc != NVML_SUCCESS {
        return Err(WinError::new(context, rc as u32));
    }
    Ok(value)
}

/// Vendor and device of a PCI identity word: the vendor is the low half.
pub fn pci_ids(word: u32) -> (r: (u32, u32))
    ensures
        r.0 == word % 0x1_0000,
        r.1 == word / 0x1_0000,
{
    let vendor_id: u32 = word & 0xFFFF;
    let device_id: u32 = (word >> 16) & 0xFFFF;
    assert(word & 0xFFFF == word % 0x1_0000 && (word >> 16) & 0xFFFF == word / 0x1_0000) by (
    bit_vector);
    (vendor_id, device_id)
}

/// What NVML said of the device at one index.
pub enum DeviceReply {
    /// It would not hand out the device.
    NoHandle(WinError),
    /// It would not say which device it is.
    NoIdentity,
    /// The PCI identity word of the device.
    Identity(u32),
}

/// The reply is that of the adapter that is looked for.
pub open spec fn is_wanted(reply: DeviceReply, vendor_id: u32, device_id: u32) -> bool {
    reply matches DeviceReply::Identity(word) && word % 0x1_0000 == vendor_id && word / 0x1_0000
        == device_id
}

/// The outcome of asking index after index, from the first reply on.
pub open spec fn search(replies: Seq<DeviceReply>, from: int, vendor_id: u32, device_id: u32) -> Result<
    int,
    (Seq<char>, u32),
>
    decreases replies.len() - from,
{
    if from >= replies.len() {
        Err(("no NVML device matched the requested vendor/device id"@, 0))
    } else {
        match replies[from] {
            DeviceReply::NoHandle(e) => Err((e.context@, e.code)),
            _ => if is_wanted(replies[from], vendor_id, device_id) {
                Ok(from)
            } else {
                search(replies, from + 1, vendor_id, device_id)
            },
        }
    }
}

/// The index of the device with this vendor and device ID, so that telemetry is read for the
/// adapter that the inventory showed. `replies` are those of all devices, in order. A device
/// that cannot be identified is passed over; one that cannot be had ends the search.
pub fn find_device(replies: &[DeviceReply], vendor_id: u32, device_id: u32) -> (r: WinResult<usize>)
    ensures
        match search(replies@, 0, vendor_id, device_id) {
            Ok(i) => r matches Ok(k) && k == i,
            Err((context, code)) => r matches Err(e) && e.context@ == context && e.code == code,
        },
{
    let mut i: usize = 0;
    while i < replies.len()
        invariant
            i <= replies.len(),
            search(replies@, 0, vendor_id, device_id) == search(
                replies@,
                i as int,
                vendor_id,
                device_id,
            ),
        decreases replies.len() - i,
    {
        match &replies[i] {
            DeviceReply::NoHandle(e) => {
                return Err(WinError::new(e.context, e.code));
            },
            DeviceReply::NoIdentity => {},
            DeviceReply::Identity(word) => {
                let (v, d) = pci_ids(*word);
                if v == vendor_id && d == device_id {
                    return Ok(i);
                }
            },
        }
        i += 1;
    }
    Err(WinError::new("no NVML device matched the requested vendor/device id", 0))
}

/// The bytes of a buffer before its first NUL.
pub open spec fn c_string(buf: Seq<u8>) -> Seq<u8>
    decreases buf.len(),
{
    if buf.len() == 0 || buf[0] == 0 {
        seq![]
    } else {
        seq![buf[0]] + c_string(buf.drop_first())
    }
}

/// The bytes of a buffer before its first NUL.
pub fn before_nul_byte(buf: &[u8]) -> (v: Vec<u8>)
    ensures
        v@ == c_string(buf@),
{
    let mut v: Vec<u8> = Vec::new();
    let mut i: usize = 0;
    assert(buf@.skip(0) == buf@);
    while i < buf.len() && buf[i] != 0
        invariant
            i <= buf.len(),
            c_string(buf@) == v@ + c_string(buf@.skip(i as int)),
        decreases buf.len() - i,
    {
        assert(buf@.skip(i as int)[0] == buf@[i as int]);
        assert(buf@.skip(i as int).drop_first() == buf@.skip(i + 1));
        let ghost before = v@;
        v.push(buf[i]);
        assert(v@ + c_string(buf@.skip(i + 1)) == before + (seq![buf@[i as int]] + c_string(
            buf@.skip(i + 1),
        )));
        i += 1;
    }
    assert(i < buf.len() ==> buf@.skip(i as int)[0] == 0);
    assert(c_string(buf@.skip(i as int)) == Seq::<u8>::empty());
    v
}

/// The name of a device, from the buffer that NVML filled.
pub fn device_name(buf: &[u8]) -> (s: String)
    ensures
        s@ == utf8_lossy(c_string(buf@)),
{
    let bytes = before_nul_byte(buf);
    from_utf8_lossy(bytes.as_slice())
}

/// A power that is given in milliwatts.
pub fn power_of_milliwatts(mw: u32) -> (p: Power)
    ensures
        p.microwatts == mw * 1000,
{
    Power { microwatts: mw as u64 * 1000 }
}

// ---------------------------------------------------------------------------
// Laws
// ---------------------------------------------------------------------------

/// A device that is found is the wanted one, and none before it is.
pub proof fn the_found_device_is_the_first_match(
    replies: Seq<DeviceReply>,
    from: int,
    vendor_id: u32,
    device_id: u32,
)
    requires
        0 <= from <= replies.len(),
        search(replies, from, vendor_id, device_id) is Ok,
    ensures
        ({
            let k = search(replies, from, vendor_id, device_id)->Ok_0;
            &&& from <= k < replies.len()
            &&& is_wanted(replies[k], vendor_id, device_id)
            &&& forall|j: int| from <= j < k ==> !is_wanted(#[trigger] replies[j], vendor_id, device_id)
        }),
    decreases replies.len() - from,
{
    if !is_wanted(replies[from], vendor_id, device_id) {
        the_found_device_is_the_first_match(replies, from + 1, vendor_id, device_id);
    }
}

/// Each reason has its own bit: bit 2 is the software's power cap, bit 3 a slowdown of the
/// hardware, bit 5 the software's and bit 6 the hardware's thermal slowdown, and bit 7 the power
/// brake. Some reason holds exactly where one of these bits is set.
pub proof fn every_reason_has_its_bit(bits: u64)
    ensures
        ({
            let r = ThrottleReasons::of_bits(bits);
            &&& r.sw_power_cap <==> bits / 4 % 2 == 1
            &&& r.hw_slowdown <==> bits / 8 % 2 == 1
            &&& r.sw_thermal_slowdown <==> bits / 32 % 2 == 1
            &&& r.hw_thermal_slowdown <==> bits / 64 % 2 == 1
            &&& r.hw_power_brake <==> bits / 128 % 2 == 1
            &&& r.has_any() <==> bits / 4 % 2 == 1 || bits / 8 % 2 == 1 || bits / 32 % 2 == 1 || bits
                / 64 % 2 == 1 || bits / 128 % 2 == 1
        }),
{
    assert((bits & 4 != 0) == (bits / 4 % 2 == 1) && (bits & 8 != 0) == (bits / 8 % 2 == 1) && (bits
        & 32 != 0) == (bits / 32 % 2 == 1) && (bits & 64 != 0) == (bits / 64 % 2 == 1) && (bits
        & 128 != 0) == (bits / 128 % 2 == 1)) by (bit_vector);
}

/// The reply is an identity with these ids: the vendor in its lower half, the device in its upper.
pub open spec fn identifies(reply: DeviceReply, vendor_id: u32, device_id: u32) -> bool {
    reply matches DeviceReply::Identity(word) && word == vendor_id + 65536 * device_id && vendor_id
        < 65536
}

/// The search finds the first device with both ids. A device that cannot be identified hides none
/// behind it; one that cannot be had ends the search with its own error; and where none matches,
/// the error says so.
pub proof fn the_search_goes_on_to_the_first_match(
    replies: Seq<DeviceReply>,
    vendor_id: u32,
    device_id: u32,
    from: int,
    k: int,
)
    requires
        0 <= from <= k <= replies.len(),
        forall|j: int|
            from <= j < k ==> !((#[trigger] replies[j]) is NoHandle) && !identifies(
                replies[j],
                vendor_id,
                device_id,
            ),
    ensures
        k == replies.len() ==> search(replies, from, vendor_id, device_id)
            == Err::<int, (Seq<char>, u32)>(
            ("no NVML device matched the requested vendor/device id"@, 0),
        ),
        k < replies.len() && identifies(replies[k], vendor_id, device_id) ==> search(
            replies,
            from,
            vendor_id,
            device_id,
        ) == Ok::<int, (Seq<char>, u32)>(k),
        k < replies.len() ==> (replies[k] matches DeviceReply::NoHandle(e) ==> search(
            replies,
            from,
            vendor_id,
            device_id,
        ) == Err::<int, (Seq<char>, u32)>((e.context@, e.code))),
    decreases k - from,
{
    if from < k {
        assert(!identifies(replies[from], vendor_id, device_id));
        the_search_goes_on_to_the_first_match(replies, vendor_id, device_id, from + 1, k);
    }
}

/// The bytes before the first NUL are all there is before it.
pub proof fn a_name_ends_at_the_first_nul(buf: Seq<u8>)
    ensures
        ({
            let name = c_string(buf);
            &&& name.len() <= buf.len()
            &&& forall|i: int| 0 <= i < name.len() ==> #[trigger] name[i] == buf[i] && buf[i] != 0
            &&& name.len() < buf.len() ==> buf[name.len() as int] == 0
        }),
    decreases buf.len(),
{
    if buf.len() > 0 && buf[0] != 0 {
        a_name_ends_at_the_first_nul(buf.drop_first());
        let name = c_string(buf);
        let rest = c_string(buf.drop_first());
        assert forall|i: int| 0 <= i < name.len() implies #[trigger] name[i] == buf[i] && buf[i]
            != 0 by {
            if i > 0 {
                assert(name[i] == rest[i - 1]);
            }
        }
    }
}

/// A word of PCI ids is made of both: the device's sixteen bits above the vendor's.
pub proof fn a_word_holds_both_ids(word: u32, ids: (u32, u32))
    requires
        call_ensures(pci_ids, (word,), ids),
    ensures
        ids.0 < 65536,
        ids.1 < 65536,
        65536 * ids.1 + ids.0 == word,
{
}

/// A milliwatt is a thousand microwatts, and a call that came back with no error code hands out
/// its value; any other code is the error's.
pub proof fn answers_are_taken_as_they_come(
    mw: u32,
    p: Power,
    rc: i32,
    value: u32,
    context: &'static str,
    r: WinResult<u32>,
)
    requires
        call_ensures(power_of_milliwatts, (mw,), p),
        call_ensures(nvml_result::<u32>, (rc, value, context), r),
    ensures
        p.microwatts == 1000 * mw,
        r is Ok <==> rc == 0,
        r matches Ok(v) ==> v == value,
        r matches Err(e) ==> e.context == context && e.code == rc as u32,
{
}

} // verus!
