//! Device-control codes.
//!
//! A wrong code silently returns "invalid function", and every field behind it would read as
//! unavailable.
use vstd::prelude::*;

verus! {

pub const METHOD_BUFFERED: u32 = 0;

pub const FILE_ANY_ACCESS: u32 = 0;

pub const FILE_READ_ACCESS: u32 = 1;

pub const FILE_WRITE_ACCESS: u32 = 2;

pub const FILE_DEVICE_BATTERY: u32 = 0x0000_0029;

pub const FILE_DEVICE_MASS_STORAGE: u32 = 0x0000_002d;

pub const FILE_DEVICE_CONTROLLER: u32 = 0x0000_0004;

pub const FILE_DEVICE_DISK: u32 = 0x0000_0007;

/// The fields of a code, packed: device, access, function, method.
pub open spec fn packed_code(device_type: u32, function: u32, method: u32, access: u32) -> u32 {
    (device_type << 16) | (access << 14) | (function << 2) | method
}

/// Pack the fields of a code.
pub fn ctl_code(device_type: u32, function: u32, method: u32, access: u32) -> (code: u32)
    ensures
        code == packed_code(device_type, function, method, access),
{
    (device_type << 16) | (access << 14) | (function << 2) | method
}

// Battery class driver.
pub const IOCTL_BATTERY_QUERY_TAG: u32 = 0x0029_4040;

pub const IOCTL_BATTERY_QUERY_INFORMATION: u32 = 0x0029_4044;

pub const IOCTL_BATTERY_QUERY_STATUS: u32 = 0x0029_404C;

// Storage.
pub const IOCTL_STORAGE_QUERY_PROPERTY: u32 = 0x002D_1400;

pub const IOCTL_SCSI_PASS_THROUGH: u32 = 0x0004_5004;

/// Probes whether the driver supports the legacy SMART codes.
pub const SMART_GET_VERSION: u32 = 0x0007_4080;

/// The legacy SMART read path. Older and narrower than ATA pass-through, but supported by
/// drivers that reject it, so it is tried first.
pub const SMART_RCV_DRIVE_DATA: u32 = 0x0007_C088;

/// The modern SATA SMART path. Declared with write access even though reading SMART data only
/// transfers data inward; the access bits describe the code, not the intent.
pub const IOCTL_ATA_PASS_THROUGH: u32 = 0x0004_D02C;

/// Each code is the packing of its device, function, method and access.
pub proof fn codes_pack_their_fields()
    ensures
        IOCTL_BATTERY_QUERY_TAG == packed_code(
            FILE_DEVICE_BATTERY,
            0x10,
            METHOD_BUFFERED,
            FILE_READ_ACCESS,
        ),
        IOCTL_BATTERY_QUERY_INFORMATION == packed_code(
            FILE_DEVICE_BATTERY,
            0x11,
            METHOD_BUFFERED,
            FILE_READ_ACCESS,
        ),
        IOCTL_BATTERY_QUERY_STATUS == packed_code(
            FILE_DEVICE_BATTERY,
            0x13,
            METHOD_BUFFERED,
            FILE_READ_ACCESS,
        ),
        IOCTL_STORAGE_QUERY_PROPERTY == packed_code(
            FILE_DEVICE_MASS_STORAGE,
            0x0500,
            METHOD_BUFFERED,
            FILE_ANY_ACCESS,
        ),
        IOCTL_SCSI_PASS_THROUGH == packed_code(
            FILE_DEVICE_CONTROLLER,
            0x0401,
            METHOD_BUFFERED,
            FILE_READ_ACCESS,
        ),
        SMART_GET_VERSION == packed_code(
            FILE_DEVICE_DISK,
            0x0020,
            METHOD_BUFFERED,
            FILE_READ_ACCESS,
        ),
        SMART_RCV_DRIVE_DATA == packed_code(
            FILE_DEVICE_DISK,
            0x0022,
            METHOD_BUFFERED,
            FILE_READ_ACCESS | FILE_WRITE_ACCESS,
        ),
        IOCTL_ATA_PASS_THROUGH == packed_code(
            FILE_DEVICE_CONTROLLER,
            0x040b,
            METHOD_BUFFERED,
            FILE_READ_ACCESS | FILE_WRITE_ACCESS,
        ),
{
    assert(0x0029_4040u32 == ((0x29u32 << 16) | (1u32 << 14) | (0x10u32 << 2) | 0u32)
        && 0x0029_4044u32 == ((0x29u32 << 16) | (1u32 << 14) | (0x11u32 << 2) | 0u32)
        && 0x0029_404Cu32 == ((0x29u32 << 16) | (1u32 << 14) | (0x13u32 << 2) | 0u32)
        && 0x002D_1400u32 == ((0x2du32 << 16) | (0u32 << 14) | (0x500u32 << 2) | 0u32)
        && 0x0004_5004u32 == ((4u32 << 16) | (1u32 << 14) | (0x401u32 << 2) | 0u32)
        && 0x0007_4080u32 == ((7u32 << 16) | (1u32 << 14) | (0x20u32 << 2) | 0u32)
        && 0x0007_C088u32 == ((7u32 << 16) | ((1u32 | 2u32) << 14) | (0x22u32 << 2) | 0u32)
        && 0x0004_D02Cu32 == ((4u32 << 16) | ((1u32 | 2u32) << 14) | (0x40bu32 << 2) | 0u32))
        by (bit_vector);
}

/// A code is a sum of its fields, each in its own bits: the device from bit 16 on, the access from
/// bit 14, the function from bit 2, and the method below.
pub proof fn a_code_keeps_its_fields_apart(
    device_type: u32,
    function: u32,
    method: u32,
    access: u32,
)
    requires
        device_type < 0x1_0000,
        function < 0x1000,
        method < 4,
        access < 4,
    ensures
        packed_code(device_type, function, method, access) == 65536 * device_type + 16384 * access
            + 4 * function + method,
{
    assert((device_type << 16) | (access << 14) | (function << 2) | method == 65536 * device_type
        + 16384 * access + 4 * function + method) by (bit_vector)
        requires
            device_type < 0x1_0000,
            function < 0x1000,
            method < 4,
            access < 4,
    ;
}

} // verus!
