//! Device interface enumeration and device paths.
use vstd::prelude::*;

use crate::text::number::{dec, push_dec};
use crate::win::wide::{before_nul, read_units, units_of, utf16_text, wide_to_string};
use crate::win::{WinError, WinResult};

verus! {

/// The interface class of battery devices.
pub const GUID_DEVICE_BATTERY: u128 = 0x72631e54_78a4_11d0_bcf7_00aa00b7b32a;

/// The interface class of disks.
pub const GUID_DEVINTERFACE_DISK: u128 = 0x53f56307_b6bf_11d0_94f2_00a0c91efb8b;

/// An identifier by its fields; the last eight bytes are in big-endian order.
#[derive(Debug, Clone, Copy, PartialEq, Eq, Structural)]
pub struct Guid {
    pub data1: u32,
    pub data2: u16,
    pub data3: u16,
    pub data4: u64,
}

impl Guid {
    /// The fields of an identifier that is written as one number.
    pub fn from_u128(n: u128) -> (g: Self)
        ensures
            g.data1 == n / 0x1_0000_0000_0000_0000_0000_0000,
            g.data2 == n / 0x1_0000_0000_0000_0000_0000 % 0x1_0000,
            g.data3 == n / 0x1_0000_0000_0000_0000 % 0x1_0000,
            g.data4 == n % 0x1_0000_0000_0000_0000,
    {
        Guid {
            data1: (n / 0x1_0000_0000_0000_0000_0000_0000) as u32,
            data2: (n / 0x1_0000_0000_0000_0000_0000 % 0x1_0000) as u16,
            data3: (n / 0x1_0000_0000_0000_0000 % 0x1_0000) as u16,
            data4: (n % 0x1_0000_0000_0000_0000) as u64,
        }
    }
}

/// The error code with which an enumeration says that there is nothing more.
pub const ERROR_NO_MORE_ITEMS: u32 = 259;

/// The path in an interface detail block: UTF-16 after a four-byte header, up to the first
/// NUL.
pub open spec fn detail_text(detail: Seq<u8>) -> Seq<char> {
    if detail.len() < 4 {
        seq![]
    } else {
        utf16_text(before_nul(units_of(detail.skip(4))))
    }
}

/// The paths of the interfaces whose detail could be read; an empty path is passed over.
pub open spec fn paths_of(details: Seq<Option<Vec<u8>>>) -> Seq<Seq<char>>
    decreases details.len(),
{
    if details.len() == 0 {
        seq![]
    } else {
        let before = paths_of(details.drop_last());
        match details.last() {
            Some(detail) if detail_text(detail@).len() > 0 => before.push(detail_text(detail@)),
            _ => before,
        }
    }
}

/// The path in an interface detail block.
pub fn detail_path(detail: &[u8]) -> (s: String)
    ensures
        s@ == detail_text(detail@),
{
    if detail.len() < 4 {
        return String::new();
    }
    let tail = vstd::slice::slice_subrange(detail, 4, detail.len());
    assert(tail@ == detail@.skip(4));
    let units = read_units(tail);
    wide_to_string(units.as_slice())
}

/// The paths of the enumerated interfaces. `details` are their detail blocks in order,
/// nothing where one could not be read; `end` is the error that ended the enumeration.
pub fn interface_paths(details: &[Option<Vec<u8>>], end: u32) -> (r: WinResult<Vec<String>>)
    ensures
        match r {
            Ok(paths) => end == ERROR_NO_MORE_ITEMS && paths.deep_view() == paths_of(details@),
            Err(e) => end != ERROR_NO_MORE_ITEMS && e.context@ == "SetupDiEnumDeviceInterfaces"@
                && e.code == end,
        },
{
    if end != ERROR_NO_MORE_ITEMS {
        return Err(WinError::new("SetupDiEnumDeviceInterfaces", end));
    }
    let mut paths: Vec<String> = Vec::new();
    assert(paths.deep_view() == paths_of(details@.take(0)));
    for i in 0..details.len()
        invariant
            paths.deep_view() == paths_of(details@.take(i as int)),
    {
        assert(details@.take(i + 1).drop_last() == details@.take(i as int));
        assert(details@.take(i + 1).last() == details@[i as int]);
        if let Some(detail) = &details[i] {
            let path = detail_path(detail.as_slice());
            let ghost added = path@;
            let ghost before = paths.deep_view();
            if path.as_str().unicode_len() > 0 {
                paths.push(path);
                assert(paths.deep_view() == before.push(added));
            }
        }
    }
    assert(details@.take(details@.len() as int) == details@);
    Ok(paths)
}

/// The path of a physical drive.
pub open spec fn drive_path(index: u32) -> Seq<char> {
    "\\\\.\\PhysicalDrive"@ + dec(index as nat)
}

/// The path of a physical drive.
pub fn physical_drive_path(index: u32) -> (s: String)
    ensures
        s@ == drive_path(index),
{
    let mut s = String::from_str("\\\\.\\PhysicalDrive");
    push_dec(&mut s, index as u128);
    s
}

/// No enumerated path is empty.
pub proof fn paths_are_never_empty(details: Seq<Option<Vec<u8>>>)
    ensures
        forall|i: int| 0 <= i < paths_of(details).len() ==> (#[trigger] paths_of(details)[i]).len() > 0,
    decreases details.len(),
{
    if details.len() > 0 {
        paths_are_never_empty(details.drop_last());
        let before = paths_of(details.drop_last());
        assert forall|i: int| 0 <= i < paths_of(details).len() implies (#[trigger] paths_of(
            details,
        )[i]).len() > 0 by {
            if i < before.len() {
                assert(paths_of(details)[i] == before[i]);
            }
        }
    }
}

/// Every interface counts for itself: one whose detail block holds a path behind its four-byte
/// header adds that path at the end, and any other adds nothing.
pub proof fn every_interface_adds_its_path(details: Seq<Option<Vec<u8>>>, detail: Option<Vec<u8>>)
    ensures
        paths_of(Seq::empty()).len() == 0,
        paths_of(details.push(detail)) == match detail {
            Some(d) => {
                let path = utf16_text(before_nul(units_of(d@.skip(4))));
                if d@.len() >= 4 && path.len() > 0 {
                    paths_of(details).push(path)
                } else {
                    paths_of(details)
                }
            },
            None => paths_of(details),
        },
{
    assert(details.push(detail).drop_last() =~= details);
}

/// The path of a drive ends in its number, so two drives have two paths.
pub proof fn two_drives_have_two_paths(a: u32, b: u32)
    ensures
        drive_path(a) == drive_path(b) ==> a == b,
        drive_path(a).skip(17) == dec(a as nat),
{
    reveal_strlit("\\\\.\\PhysicalDrive");
    let head = "\\\\.\\PhysicalDrive"@;
    assert(head.len() == 17);
    assert(drive_path(a).skip(17) =~= dec(a as nat));
    assert(drive_path(b).skip(17) =~= dec(b as nat));
    crate::text::number::notation_stands_for_the_number(a as nat);
    crate::text::number::notation_stands_for_the_number(b as nat);
}

/// An identifier keeps every bit of the number that it is written as: 32, 16, 16 and 64 of them.
pub proof fn an_identifier_keeps_its_number(n: u128, g: Guid)
    requires
        call_ensures(Guid::from_u128, (n,), g),
    ensures
        g.data1 * 0x1_0000_0000_0000_0000_0000_0000 + g.data2 * 0x1_0000_0000_0000_0000_0000
            + g.data3 * 0x1_0000_0000_0000_0000 + g.data4 == n,
{
    let a = n as int / 0x1_0000_0000_0000_0000;
    let b = a / 0x1_0000;
    vstd::arithmetic::div_mod::lemma_div_denominator(n as int, 0x1_0000_0000_0000_0000, 0x1_0000);
    vstd::arithmetic::div_mod::lemma_div_denominator(
        n as int,
        0x1_0000_0000_0000_0000_0000,
        0x1_0000,
    );
    assert(n == 0x1_0000_0000_0000_0000 * a + g.data4);
    assert(a == 0x1_0000 * b + g.data3);
    assert(b == 0x1_0000 * g.data1 + g.data2);
}

} // verus!
