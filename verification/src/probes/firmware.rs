//! Firmware probe: machine identity from SMBIOS, and firmware-persistence red flags from
//! the ACPI table list.
//!
//! The Windows Platform Binary Table (WPBT) lets firmware inject an executable that the
//! operating system runs at every boot, surviving a disk wipe or a drive swap. It is the
//! mechanism behind Absolute/Computrace anti-theft, so a used laptop still enrolled with a
//! previous owner's IT department can be remotely locked or wiped.
use vstd::prelude::*;

use crate::bytes::{le16, le32, read_le16, read_le32};
use crate::model::{Reading, ReadingView, Unavailable, UnavailableView};
use crate::text::{
    ascii_lower, begins_with, eq_text, from_utf8_lossy, slice_of, starts_with, to_ascii_lower, trim,
    trimmed, utf8_lossy,
};
use crate::text::number::{dec, hex2, push_dec, push_hex2};
use crate::win::WinError;

verus! {

/// One decoded SMBIOS structure: its type, its formatted bytes, and its string table.
#[derive(Debug, Clone)]
pub struct SmbiosStructure {
    pub struct_type: u8,
    pub formatted: Vec<u8>,
    pub strings: Vec<String>,
}

/// The mathematical model of [`SmbiosStructure`].
#[verifier::ext_equal]
pub struct SmbiosView {
    pub struct_type: u8,
    pub formatted: Seq<u8>,
    pub strings: Seq<Seq<char>>,
}

impl DeepView for SmbiosStructure {
    type V = SmbiosView;

    open spec fn deep_view(&self) -> SmbiosView {
        SmbiosView {
            struct_type: self.struct_type,
            formatted: self.formatted@,
            strings: self.strings.deep_view(),
        }
    }
}

impl SmbiosView {
    /// The byte at `offset` of the formatted area.
    pub open spec fn byte_at(self, offset: int) -> Option<u8> {
        if 0 <= offset < self.formatted.len() {
            Some(self.formatted[offset])
        } else {
            None
        }
    }

    /// The little-endian 16-bit word at `offset` of the formatted area.
    pub open spec fn word_at(self, offset: int) -> Option<u16> {
        if 0 <= offset && offset + 2 <= self.formatted.len() {
            Some(le16(self.formatted, offset))
        } else {
            None
        }
    }

    /// The little-endian 32-bit word at `offset` of the formatted area.
    pub open spec fn dword_at(self, offset: int) -> Option<u32> {
        if 0 <= offset && offset + 4 <= self.formatted.len() {
            Some(le32(self.formatted, offset))
        } else {
            None
        }
    }

    /// The string that the byte at `offset` refers to, counted from 1, without the white
    /// space around it; none where it is unset, absent, empty or a placeholder.
    pub open spec fn string_at(self, offset: int) -> Option<Seq<char>> {
        match self.byte_at(offset) {
            None => None,
            Some(idx) => if idx == 0 || idx > self.strings.len() {
                None
            } else {
                let s = trimmed(self.strings[idx - 1]);
                if s.len() == 0 || placeholder(s) {
                    None
                } else {
                    Some(s)
                }
            },
        }
    }
}

impl SmbiosStructure {
    /// SMBIOS string references are 1-based; 0 means "not set".
    pub fn string_at(&self, offset: usize) -> (r: Option<String>)
        ensures
            r.deep_view() == self.deep_view().string_at(offset as int),
    {
        if offset >= self.formatted.len() {
            return None;
        }
        let idx = self.formatted[offset] as usize;
        if idx == 0 || idx > self.strings.len() {
            return None;
        }
        let s = trim(self.strings[idx - 1].as_str());
        if s.as_str().is_empty() || is_placeholder(s.as_str()) {
            None
        } else {
            Some(s)
        }
    }

    pub fn byte_at(&self, offset: usize) -> (r: Option<u8>)
        ensures
            r == self.deep_view().byte_at(offset as int),
    {
        if offset < self.formatted.len() {
            Some(self.formatted[offset])
        } else {
            None
        }
    }

    pub fn word_at(&self, offset: usize) -> (r: Option<u16>)
        ensures
            r == self.deep_view().word_at(offset as int),
    {
        if self.formatted.len() < 2 || offset > self.formatted.len() - 2 {
            None
        } else {
            Some(read_le16(self.formatted.as_slice(), offset))
        }
    }

    pub fn dword_at(&self, offset: usize) -> (r: Option<u32>)
        ensures
            r == self.deep_view().dword_at(offset as int),
    {
        if self.formatted.len() < 4 || offset > self.formatted.len() - 4 {
            None
        } else {
            Some(read_le32(self.formatted.as_slice(), offset))
        }
    }
}

/// A text that stands where a real one was never filled in.
pub open spec fn placeholder(s: Seq<char>) -> bool {
    let l = ascii_lower(trimmed(s));
    ||| l.len() == 0
    ||| l == "none"@
    ||| l == "n/a"@
    ||| l == "default string"@
    ||| l == "not specified"@
    ||| l == "not applicable"@
    ||| l == "unknown"@
    ||| l == "system serial number"@
    ||| l == "system manufacturer"@
    ||| l == "system product name"@
    ||| l == "0"@
    ||| begins_with(l, "to be filled"@)
    ||| begins_with(l, "oem_"@)
    ||| forall|i: int| 0 <= i < l.len() ==> filler_char(#[trigger] l[i])
}

/// A character that alone never makes up a real text.
pub open spec fn filler_char(c: char) -> bool {
    c == '0' || c == '.' || c == ' '
}

/// OEMs ship placeholder strings constantly. Treating "To Be Filled By O.E.M." as a
/// serial number would put meaningless text in a report a buyer relies on.
pub fn is_placeholder(s: &str) -> (r: bool)
    ensures
        r == placeholder(s@),
{
    let t = trim(s);
    let lower = to_ascii_lower(t.as_str());
    let l = lower.as_str();
    l.is_empty() || eq_text(l, "none") || eq_text(l, "n/a") || eq_text(l, "default string")
        || eq_text(l, "not specified") || eq_text(l, "not applicable") || eq_text(l, "unknown")
        || eq_text(l, "system serial number") || eq_text(l, "system manufacturer")
        || eq_text(l, "system product name") || eq_text(l, "0") || starts_with(l, "to be filled")
        || starts_with(l, "oem_") || only_filler(l)
}

/// Whether a text is made of zeros, dots and spaces alone.
fn only_filler(l: &str) -> (r: bool)
    ensures
        r == (forall|i: int| 0 <= i < l@.len() ==> filler_char(#[trigger] l@[i])),
{
    let v = crate::text::chars_of(l);
    let mut i: usize = 0;
    while i < v.len()
        invariant
            i <= v.len(),
            v@ == l@,
            forall|j: int| 0 <= j < i ==> filler_char(#[trigger] l@[j]),
        decreases v.len() - i,
    {
        let c = v[i];
        if !(c == '0' || c == '.' || c == ' ') {
            assert(!filler_char(l@[i as int]));
            return false;
        }
        i += 1;
    }
    true
}

/// The table that the firmware blob carries: what follows the 8-byte header, as far as the
/// header's length goes.
pub open spec fn smbios_table(raw: Seq<u8>) -> Seq<u8>
    recommends
        raw.len() >= 8,
{
    let length = le32(raw, 4) as int;
    if length < raw.len() - 8 {
        raw.subrange(8, 8 + length)
    } else {
        raw.subrange(8, raw.len() as int)
    }
}

/// The position of the first NUL; the length where there is none.
pub open spec fn first_nul(s: Seq<u8>) -> nat
    decreases s.len(),
{
    if s.len() == 0 || s[0] == 0 {
        0
    } else {
        1 + first_nul(s.drop_first())
    }
}

/// The strings of a string set: each ended by a NUL, the set by one more. A last string
/// without its NUL does not count.
pub open spec fn set_strings(s: Seq<u8>) -> Seq<Seq<char>>
    decreases s.len(),
{
    let k = first_nul(s) as int;
    if k == 0 || k >= s.len() {
        seq![]
    } else {
        seq![utf8_lossy(s.take(k))] + set_strings(s.skip(k + 1))
    }
}

/// How many bytes a string set takes up, its final NUL among them.
pub open spec fn set_len(s: Seq<u8>) -> nat
    decreases s.len(),
{
    let k = first_nul(s) as int;
    if k >= s.len() {
        s.len()
    } else if k == 0 {
        1
    } else {
        (k + 1 + set_len(s.skip(k + 1))) as nat
    }
}

/// A structure without strings is ended by two NULs.
pub open spec fn no_strings(s: Seq<u8>) -> bool {
    s.len() >= 2 && s[0] == 0 && s[1] == 0
}

/// How many bytes stand between a formatted area and the next structure.
pub open spec fn tail_len(s: Seq<u8>) -> nat {
    if no_strings(s) {
        2
    } else {
        set_len(s)
    }
}

/// The structures of a table, in order. The walk stops at a header that is cut off or
/// claims less than its own four bytes or more than is left, and after the end-of-table
/// marker (type 127).
pub open spec fn structures(data: Seq<u8>) -> Seq<SmbiosView>
    decreases data.len(),
{
    if data.len() < 4 || data[1] < 4 || data[1] > data.len() {
        seq![]
    } else {
        let rest = data.skip(data[1] as int);
        let here = SmbiosView {
            struct_type: data[0],
            formatted: data.take(data[1] as int),
            strings: if no_strings(rest) {
                seq![]
            } else {
                set_strings(rest)
            },
        };
        if data[0] == 127 {
            seq![here]
        } else {
            proof {
                set_len_bound(rest);
            }
            seq![here] + structures(rest.skip(tail_len(rest) as int))
        }
    }
}

/// Everything that a firmware blob holds.
pub open spec fn smbios_structures(raw: Seq<u8>) -> Seq<SmbiosView> {
    if raw.len() < 8 {
        seq![]
    } else {
        structures(smbios_table(raw))
    }
}

proof fn first_nul_bound(s: Seq<u8>)
    ensures
        first_nul(s) <= s.len(),
        first_nul(s) < s.len() ==> s[first_nul(s) as int] == 0,
        forall|i: int| 0 <= i < first_nul(s) ==> s[i] != 0,
    decreases s.len(),
{
    if s.len() > 0 && s[0] != 0 {
        first_nul_bound(s.drop_first());
        assert forall|i: int| 0 <= i < first_nul(s) implies s[i] != 0 by {
            if i > 0 {
                assert(s[i] == s.drop_first()[i - 1]);
            }
        }
    }
}

/// A string set never reaches past the bytes that hold it.
pub proof fn set_len_bound(s: Seq<u8>)
    ensures
        set_len(s) <= s.len(),
    decreases s.len(),
{
    first_nul_bound(s);
    let k = first_nul(s) as int;
    if 0 < k < s.len() {
        set_len_bound(s.skip(k + 1));
    }
}

/// The position of the first NUL at or after `from`.
pub fn find_nul(data: &[u8], from: usize) -> (k: usize)
    requires
        from <= data.len(),
    ensures
        k == from + first_nul(data@.skip(from as int)),
        k <= data.len(),
{
    let mut k = from;
    while k < data.len() && data[k] != 0
        invariant
            from <= k <= data.len(),
            first_nul(data@.skip(from as int)) == k - from + first_nul(data@.skip(k as int)),
        decreases data.len() - k,
    {
        assert(data@.skip(k as int).drop_first() == data@.skip(k + 1));
        k += 1;
    }
    k
}

/// Read the string set at `from`; also where it ends.
fn read_set(data: &[u8], from: usize) -> (r: (Vec<String>, usize))
    requires
        from <= data.len(),
    ensures
        r.0.deep_view() == set_strings(data@.skip(from as int)),
        r.1 == from + set_len(data@.skip(from as int)),
        r.1 <= data.len(),
{
    let mut strings: Vec<String> = Vec::new();
    let mut sp = from;
    let ghost all = data@.skip(from as int);
    proof {
        set_len_bound(all);
    }
    loop
        invariant
            from <= sp <= data.len(),
            all == data@.skip(from as int),
            set_strings(all) == strings.deep_view() + set_strings(data@.skip(sp as int)),
            set_len(all) == sp - from + set_len(data@.skip(sp as int)),
        decreases data.len() - sp,
    {
        let ghost s = data@.skip(sp as int);
        let k = find_nul(data, sp);
        proof {
            first_nul_bound(s);
            set_len_bound(s);
        }
        if k == data.len() {
            assert(strings.deep_view() + set_strings(s) == strings.deep_view());
            return (strings, k);
        }
        if k == sp {
            assert(strings.deep_view() + set_strings(s) == strings.deep_view());
            return (strings, k + 1);
        }
        let piece = vstd::slice::slice_subrange(data, sp, k);
        let text = from_utf8_lossy(piece);
        assert(piece@ == s.take(k - sp));
        assert(s.skip(k - sp + 1) == data@.skip(k + 1));
        let ghost before = strings.deep_view();
        strings.push(text);
        assert(strings.deep_view() == before.push(text@));
        assert(before + (seq![text@] + set_strings(data@.skip(k + 1))) == before.push(text@)
            + set_strings(data@.skip(k + 1)));
        sp = k + 1;
    }
}

/// Parse the raw SMBIOS blob returned by the firmware's raw-table provider.
pub fn parse_smbios(raw: &[u8]) -> (out: Vec<SmbiosStructure>)
    ensures
        out.deep_view() == smbios_structures(raw@),
        4 * out@.len() <= u32::MAX,
{
    // RawSMBIOSData header: Used20CallingMethod, Major, Minor, DmiRevision, Length(u32)
    if raw.len() < 8 {
        let out: Vec<SmbiosStructure> = Vec::new();
        assert(out.deep_view() == smbios_structures(raw@));
        return out;
    }
    let length = read_le32(raw, 4) as usize;
    let end = if length < raw.len() - 8 { 8 + length } else { raw.len() };
    let data = vstd::slice::slice_subrange(raw, 8, end);
    assert(data@ == smbios_table(raw@));

    let mut out: Vec<SmbiosStructure> = Vec::new();
    let mut pos: usize = 0;
    assert(data@.skip(0) == data@);
    assert(out.deep_view() + structures(data@) == structures(data@));
    loop
        invariant_except_break
            pos <= data.len(),
            data.len() <= u32::MAX,
            4 * out@.len() <= pos,
            structures(data@) == out.deep_view() + structures(data@.skip(pos as int)),
        ensures
            out.deep_view() == structures(data@),
            4 * out@.len() <= u32::MAX,
        decreases data.len() - pos,
    {
        let ghost here = data@.skip(pos as int);
        let ghost before = out.deep_view();
        if data.len() - pos < 4 {
            assert(before + structures(here) == before);
            break;
        }
        let struct_type = data[pos];
        let formatted_len = data[pos + 1] as usize;
        assert(here[0] == struct_type && here[1] == formatted_len);
        // A header shorter than 4 bytes means the table is corrupt; stop rather than walk
        // off into unrelated memory.
        if formatted_len < 4 || formatted_len > data.len() - pos {
            assert(before + structures(here) == before);
            break;
        }
        let formatted = vstd::slice::slice_to_vec(
            vstd::slice::slice_subrange(data, pos, pos + formatted_len),
        );
        assert(formatted@ == here.take(formatted_len as int));
        let sp = pos + formatted_len;
        let ghost rest = data@.skip(sp as int);
        assert(rest == here.skip(formatted_len as int));
        let strings: Vec<String>;
        let next: usize;
        if data.len() - sp >= 2 && data[sp] == 0 && data[sp + 1] == 0 {
            // A structure with no strings is terminated by two NULs: consuming only one
            // would misalign every structure that follows.
            strings = Vec::new();
            next = sp + 2;
            assert(strings.deep_view() == Seq::<Seq<char>>::empty());
        } else {
            let (found, end_of_set) = read_set(data, sp);
            strings = found;
            next = end_of_set;
        }
        assert(next == sp + tail_len(rest));
        assert(data@.skip(next as int) == rest.skip(tail_len(rest) as int));
        let entry = SmbiosStructure { struct_type, formatted, strings };
        let ghost added = entry.deep_view();
        out.push(entry);
        assert(out.deep_view() == before.push(added));
        assert(before + seq![added] == before.push(added));
        // Type 127 is the end-of-table marker.
        if struct_type == 127 {
            break;
        }
        assert(before + (seq![added] + structures(data@.skip(next as int))) == before.push(added)
            + structures(data@.skip(next as int)));
        pos = next;
    }
    out
}

// ---------------------------------------------------------------------------
// Public shape
// ---------------------------------------------------------------------------

#[derive(Debug, Clone, Copy, PartialEq, Eq, Structural)]
pub enum FormFactor {
    Laptop,
    Desktop,
    AllInOne,
    Tablet,
    Server,
    Unknown,
}

/// The form factor of an SMBIOS Type 3 chassis code. Bit 7 is a "chassis lock present"
/// flag, not part of the type.
pub open spec fn form_factor_of(code: u8) -> FormFactor {
    let kind = code % 128;
    if kind == 8 || kind == 9 || kind == 10 || kind == 14 || kind == 31 || kind == 32 {
        FormFactor::Laptop
    } else if kind == 11 || kind == 30 {
        FormFactor::Tablet
    } else if kind == 13 {
        FormFactor::AllInOne
    } else if 3 <= kind <= 7 || kind == 15 || kind == 16 {
        FormFactor::Desktop
    } else if kind == 17 || kind == 23 || kind == 28 {
        FormFactor::Server
    } else {
        FormFactor::Unknown
    }
}

/// SMBIOS Type 3 chassis type codes.
pub fn chassis_form_factor(code: u8) -> (r: FormFactor)
    ensures
        r == form_factor_of(code),
{
    match code % 128 {
        8 | 9 | 10 | 14 | 31 | 32 => FormFactor::Laptop,
        11 | 30 => FormFactor::Tablet,
        13 => FormFactor::AllInOne,
        3 | 4 | 5 | 6 | 7 | 15 | 16 => FormFactor::Desktop,
        17 | 23 | 28 => FormFactor::Server,
        _ => FormFactor::Unknown,
    }
}

#[derive(Debug, Clone)]
pub struct SystemIdentity {
    pub manufacturer: Reading<String>,
    pub product_name: Reading<String>,
    pub version: Reading<String>,
    pub serial_number: Reading<String>,
    pub sku: Reading<String>,
    pub family: Reading<String>,
    pub uuid: Reading<String>,
    pub baseboard_manufacturer: Reading<String>,
    pub baseboard_product: Reading<String>,
    pub baseboard_serial: Reading<String>,
    pub bios_vendor: Reading<String>,
    pub bios_version: Reading<String>,
    pub bios_release_date: Reading<String>,
    pub form_factor: FormFactor,
    pub chassis_type_code: Reading<u8>,
    pub smbios_version: Reading<String>,
}

/// The mathematical model of [`SystemIdentity`].
#[verifier::ext_equal]
pub struct SystemIdentityView {
    pub manufacturer: ReadingView<Seq<char>>,
    pub product_name: ReadingView<Seq<char>>,
    pub version: ReadingView<Seq<char>>,
    pub serial_number: ReadingView<Seq<char>>,
    pub sku: ReadingView<Seq<char>>,
    pub family: ReadingView<Seq<char>>,
    pub uuid: ReadingView<Seq<char>>,
    pub baseboard_manufacturer: ReadingView<Seq<char>>,
    pub baseboard_product: ReadingView<Seq<char>>,
    pub baseboard_serial: ReadingView<Seq<char>>,
    pub bios_vendor: ReadingView<Seq<char>>,
    pub bios_version: ReadingView<Seq<char>>,
    pub bios_release_date: ReadingView<Seq<char>>,
    pub form_factor: FormFactor,
    pub chassis_type_code: ReadingView<u8>,
    pub smbios_version: ReadingView<Seq<char>>,
}

impl DeepView for SystemIdentity {
    type V = SystemIdentityView;

    open spec fn deep_view(&self) -> SystemIdentityView {
        SystemIdentityView {
            manufacturer: self.manufacturer.deep_view(),
            product_name: self.product_name.deep_view(),
            version: self.version.deep_view(),
            serial_number: self.serial_number.deep_view(),
            sku: self.sku.deep_view(),
            family: self.family.deep_view(),
            uuid: self.uuid.deep_view(),
            baseboard_manufacturer: self.baseboard_manufacturer.deep_view(),
            baseboard_product: self.baseboard_product.deep_view(),
            baseboard_serial: self.baseboard_serial.deep_view(),
            bios_vendor: self.bios_vendor.deep_view(),
            bios_version: self.bios_version.deep_view(),
            bios_release_date: self.bios_release_date.deep_view(),
            form_factor: self.form_factor,
            chassis_type_code: self.chassis_type_code.deep_view(),
            smbios_version: self.smbios_version.deep_view(),
        }
    }
}

/// A firmware-resident executable injection point.
#[derive(Debug, Clone)]
pub struct FirmwarePersistence {
    /// WPBT is in the live ACPI table list: firmware is injecting an executable that runs
    /// at every boot, surviving a disk wipe or drive swap.
    pub wpbt_present: bool,
    /// The launcher that a WPBT payload leaves on disk exists. It is evidence that the
    /// mechanism has been used, possibly historically or by a benign OEM driver installer;
    /// on its own it says nothing about Absolute/Computrace.
    pub wpbt_launcher_present: bool,
    /// Every ACPI table signature, for the detailed view.
    pub acpi_tables: Vec<String>,
    /// Files specific to the Absolute/Computrace agent. Only these justify naming it.
    pub absolute_agent_artifacts: Vec<String>,
}

/// The mathematical model of [`FirmwarePersistence`].
#[verifier::ext_equal]
pub struct FirmwarePersistenceView {
    pub wpbt_present: bool,
    pub wpbt_launcher_present: bool,
    pub acpi_tables: Seq<Seq<char>>,
    pub absolute_agent_artifacts: Seq<Seq<char>>,
}

impl DeepView for FirmwarePersistence {
    type V = FirmwarePersistenceView;

    open spec fn deep_view(&self) -> FirmwarePersistenceView {
        FirmwarePersistenceView {
            wpbt_present: self.wpbt_present,
            wpbt_launcher_present: self.wpbt_launcher_present,
            acpi_tables: self.acpi_tables.deep_view(),
            absolute_agent_artifacts: self.absolute_agent_artifacts.deep_view(),
        }
    }
}

#[derive(Debug, Clone)]
pub struct FirmwareReport {
    pub identity: SystemIdentity,
    pub persistence: FirmwarePersistence,
}

/// The mathematical model of [`FirmwareReport`].
#[verifier::ext_equal]
pub struct FirmwareReportView {
    pub identity: SystemIdentityView,
    pub persistence: FirmwarePersistenceView,
}

impl DeepView for FirmwareReport {
    type V = FirmwareReportView;

    open spec fn deep_view(&self) -> FirmwareReportView {
        FirmwareReportView {
            identity: self.identity.deep_view(),
            persistence: self.persistence.deep_view(),
        }
    }
}

// ---------------------------------------------------------------------------
// Identity
// ---------------------------------------------------------------------------

/// The first structure of a type.
pub open spec fn structure_of_type(structs: Seq<SmbiosView>, t: u8) -> Option<SmbiosView>
    decreases structs.len(),
{
    if structs.len() == 0 {
        None
    } else if structs[0].struct_type == t {
        Some(structs[0])
    } else {
        structure_of_type(structs.drop_first(), t)
    }
}

/// The string at an offset of a structure that may be absent.
pub open spec fn string_reading(s: Option<SmbiosView>, offset: int) -> ReadingView<Seq<char>> {
    let found = match s {
        Some(s) => s.string_at(offset),
        None => None,
    };
    match found {
        Some(v) => ReadingView::value(v),
        None => ReadingView::missing(
            UnavailableView::ImplausibleValue("absent or an OEM placeholder"@),
        ),
    }
}

/// The 16 bytes of a UUID as text. The first three groups are stored little-endian.
pub open spec fn uuid_text(b: Seq<u8>) -> Seq<char> {
    hex2(b[3]) + hex2(b[2]) + hex2(b[1]) + hex2(b[0]) + "-"@ + hex2(b[5]) + hex2(b[4]) + "-"@
        + hex2(b[7]) + hex2(b[6]) + "-"@ + hex2(b[8]) + hex2(b[9]) + "-"@ + hex2(b[10]) + hex2(
        b[11],
    ) + hex2(b[12]) + hex2(b[13]) + hex2(b[14]) + hex2(b[15])
}

/// The UUID of a system structure, where it is long enough to hold one.
pub open spec fn uuid_reading(sys: Option<SmbiosView>) -> ReadingView<Seq<char>> {
    match sys {
        Some(s) => if s.formatted.len() >= 0x18 {
            ReadingView::value(uuid_text(s.formatted.subrange(0x08, 0x18)))
        } else {
            ReadingView::unsupported()
        },
        None => ReadingView::unsupported(),
    }
}

/// The machine identity that these structures tell: BIOS (type 0), system (type 1),
/// baseboard (type 2) and chassis (type 3).
pub open spec fn identity_of(
    structs: Seq<SmbiosView>,
    version: Option<Seq<char>>,
) -> SystemIdentityView {
    let sys = structure_of_type(structs, 1);
    let board = structure_of_type(structs, 2);
    let bios = structure_of_type(structs, 0);
    let chassis_code = match structure_of_type(structs, 3) {
        Some(c) => c.byte_at(0x05),
        None => None,
    };
    SystemIdentityView {
        manufacturer: string_reading(sys, 0x04),
        product_name: string_reading(sys, 0x05),
        version: string_reading(sys, 0x06),
        serial_number: string_reading(sys, 0x07),
        sku: string_reading(sys, 0x19),
        family: string_reading(sys, 0x1A),
        uuid: uuid_reading(sys),
        baseboard_manufacturer: string_reading(board, 0x04),
        baseboard_product: string_reading(board, 0x05),
        baseboard_serial: string_reading(board, 0x07),
        bios_vendor: string_reading(bios, 0x04),
        bios_version: string_reading(bios, 0x05),
        bios_release_date: string_reading(bios, 0x08),
        form_factor: match chassis_code {
            Some(code) => form_factor_of(code),
            None => FormFactor::Unknown,
        },
        chassis_type_code: ReadingView::from_option(chassis_code),
        smbios_version: ReadingView::from_option(version),
    }
}

/// The version that a firmware blob's header states.
pub open spec fn version_text(raw: Seq<u8>) -> Option<Seq<char>> {
    if raw.len() < 3 {
        None
    } else {
        Some(dec(raw[1] as nat) + "."@ + dec(raw[2] as nat))
    }
}

/// The SMBIOS version that a firmware blob's header states.
pub fn smbios_version(raw: &[u8]) -> (r: Option<String>)
    ensures
        r.deep_view() == version_text(raw@),
{
    if raw.len() < 3 {
        return None;
    }
    let mut s = String::new();
    push_dec(&mut s, raw[1] as u128);
    assert(s@ == dec(raw@[1] as nat));
    s.append(".");
    push_dec(&mut s, raw[2] as u128);
    Some(s)
}

fn find_structure(structs: &[SmbiosStructure], t: u8) -> (r: Option<&SmbiosStructure>)
    ensures
        match r {
            Some(s) => structure_of_type(structs.deep_view(), t) == Some(s.deep_view()),
            None => structure_of_type(structs.deep_view(), t) is None,
        },
{
    let ghost all = structs.deep_view();
    let mut i: usize = 0;
    assert(all.skip(0) == all);
    while i < structs.len()
        invariant
            i <= structs.len(),
            all == structs.deep_view(),
            structure_of_type(all, t) == structure_of_type(all.skip(i as int), t),
        decreases structs.len() - i,
    {
        if structs[i].struct_type == t {
            return Some(&structs[i]);
        }
        assert(all.skip(i as int).drop_first() == all.skip(i + 1));
        i += 1;
    }
    None
}

fn str_or_missing(s: Option<&SmbiosStructure>, offset: usize) -> (r: Reading<String>)
    ensures
        r.deep_view() == string_reading(
            s.deep_view(),
            offset as int,
        ),
{
    let found = match s {
        Some(s) => s.string_at(offset),
        None => None,
    };
    match found {
        Some(v) => Reading::value(v),
        None => Reading::missing(
            Unavailable::ImplausibleValue(String::from_str("absent or an OEM placeholder")),
        ),
    }
}

/// Machine identity from already-parsed SMBIOS structures.
pub fn build_identity(structs: &[SmbiosStructure], version: Option<String>) -> (r: SystemIdentity)
    ensures
        r.deep_view() == identity_of(
            structs.deep_view(),
            version.deep_view(),
        ),
{
    let sys = find_structure(structs, 1);
    let board = find_structure(structs, 2);
    let bios = find_structure(structs, 0);
    let chassis = find_structure(structs, 3);
    let chassis_code = match chassis {
        Some(c) => c.byte_at(0x05),
        None => None,
    };
    let uuid = match sys {
        Some(s) => if s.formatted.len() >= 0x18 {
            Reading::value(format_uuid(slice_of(&s.formatted, 0x08, 0x18)))
        } else {
            Reading::unsupported()
        },
        None => Reading::unsupported(),
    };
    SystemIdentity {
        manufacturer: str_or_missing(sys, 0x04),
        product_name: str_or_missing(sys, 0x05),
        version: str_or_missing(sys, 0x06),
        serial_number: str_or_missing(sys, 0x07),
        sku: str_or_missing(sys, 0x19),
        family: str_or_missing(sys, 0x1A),
        uuid,
        baseboard_manufacturer: str_or_missing(board, 0x04),
        baseboard_product: str_or_missing(board, 0x05),
        baseboard_serial: str_or_missing(board, 0x07),
        bios_vendor: str_or_missing(bios, 0x04),
        bios_version: str_or_missing(bios, 0x05),
        bios_release_date: str_or_missing(bios, 0x08),
        form_factor: match chassis_code {
            Some(code) => chassis_form_factor(code),
            None => FormFactor::Unknown,
        },
        chassis_type_code: Reading::from(chassis_code),
        smbios_version: Reading::from(version),
    }
}

/// SMBIOS stores the first three UUID groups little-endian; fewer than 16 bytes are no
/// UUID and give an empty text.
pub fn format_uuid(b: &[u8]) -> (r: String)
    ensures
        b@.len() >= 16 ==> r@ == uuid_text(b@),
        b@.len() < 16 ==> r@ == Seq::<char>::empty(),
{
    if b.len() < 16 {
        return String::new();
    }
    let mut s = String::new();
    push_hex2(&mut s, b[3]);
    assert(s@ == hex2(b@[3]));
    push_hex2(&mut s, b[2]);
    push_hex2(&mut s, b[1]);
    push_hex2(&mut s, b[0]);
    s.append("-");
    push_hex2(&mut s, b[5]);
    push_hex2(&mut s, b[4]);
    s.append("-");
    push_hex2(&mut s, b[7]);
    push_hex2(&mut s, b[6]);
    s.append("-");
    push_hex2(&mut s, b[8]);
    push_hex2(&mut s, b[9]);
    s.append("-");
    push_hex2(&mut s, b[10]);
    push_hex2(&mut s, b[11]);
    push_hex2(&mut s, b[12]);
    push_hex2(&mut s, b[13]);
    push_hex2(&mut s, b[14]);
    push_hex2(&mut s, b[15]);
    s
}

// ---------------------------------------------------------------------------
// Persistence
// ---------------------------------------------------------------------------

/// The `i`-th four-byte signature of an ACPI table list.
pub open spec fn signature(list: Seq<u8>, i: int) -> Seq<u8> {
    list.subrange(4 * i, 4 * i + 4)
}

/// The text of every signature in the list; bytes after the last full one do not count.
pub open spec fn signature_texts(list: Seq<u8>) -> Seq<Seq<char>> {
    Seq::new(list.len() / 4, |i: int| trimmed(utf8_lossy(signature(list, i))))
}

/// The signature of the Windows Platform Binary Table.
pub open spec fn wpbt() -> Seq<u8> {
    seq![87u8, 80u8, 66u8, 84u8]
}

/// The list names the Windows Platform Binary Table.
pub open spec fn lists_wpbt(list: Seq<u8>) -> bool {
    exists|i: int| 0 <= i < list.len() / 4 && #[trigger] signature(list, i) == wpbt()
}

/// The file that Windows extracts from a WPBT table. Any vendor can use it.
pub const WPBT_LAUNCHER: &'static str = "C:\\Windows\\System32\\wpbbin.exe";

/// The files that the user-mode half of Absolute/Computrace drops.
pub const ABSOLUTE_AGENT: &'static str = "C:\\Windows\\System32\\rpcnet.exe";

pub const ABSOLUTE_AGENT_PROXY: &'static str = "C:\\Windows\\System32\\rpcnetp.exe";

/// Those of the Absolute/Computrace files that exist. Their presence alongside WPBT
/// upgrades the finding from "this machine has a firmware injection point" to "anti-theft
/// tracking is actively installed". Deliberately narrow: a report that accuses a seller of
/// shipping corporate tracking software had better be right.
pub fn find_absolute_artifacts(agent_exists: bool, proxy_exists: bool) -> (found: Vec<String>)
    ensures
        found.deep_view() == (if agent_exists {
            seq![ABSOLUTE_AGENT@]
        } else {
            seq![]
        }) + (if proxy_exists {
            seq![ABSOLUTE_AGENT_PROXY@]
        } else {
            seq![]
        }),
{
    let mut found: Vec<String> = Vec::new();
    if agent_exists {
        found.push(String::from_str(ABSOLUTE_AGENT));
    }
    if proxy_exists {
        found.push(String::from_str(ABSOLUTE_AGENT_PROXY));
    }
    assert(found.deep_view() =~= (if agent_exists {
        seq![ABSOLUTE_AGENT@]
    } else {
        seq![]
    }) + (if proxy_exists {
        seq![ABSOLUTE_AGENT_PROXY@]
    } else {
        seq![]
    }));
    found
}

/// What the ACPI table list and the files on disk say about firmware persistence. `list`
/// holds the four-byte signatures as the firmware enumerates them, one after another; it is
/// empty where they could not be enumerated.
pub fn probe_persistence(
    list: &[u8],
    launcher_exists: bool,
    agent_exists: bool,
    proxy_exists: bool,
) -> (r: FirmwarePersistence)
    ensures
        r.deep_view() == (FirmwarePersistenceView {
            wpbt_present: lists_wpbt(list@),
            wpbt_launcher_present: launcher_exists,
            acpi_tables: signature_texts(list@),
            absolute_agent_artifacts: (if agent_exists {
                seq![ABSOLUTE_AGENT@]
            } else {
                seq![]
            }) + (if proxy_exists {
                seq![ABSOLUTE_AGENT_PROXY@]
            } else {
                seq![]
            }),
        }),
{
    let n = list.len() / 4;
    let mut acpi_tables: Vec<String> = Vec::new();
    let mut wpbt_present = false;
    let mut i: usize = 0;
    while i < n
        invariant
            n == list@.len() / 4,
            list@.len() <= usize::MAX,
            i <= n,
            acpi_tables.deep_view() == signature_texts(list@).take(i as int),
            wpbt_present == exists|j: int|
                0 <= j < i && #[trigger] signature(list@, j) == wpbt(),
        decreases n - i,
    {
        let sig = vstd::slice::slice_subrange(list, 4 * i, 4 * i + 4);
        assert(sig@ == signature(list@, i as int));
        let text = from_utf8_lossy(sig);
        let ghost before = acpi_tables.deep_view();
        let name = trim(text.as_str());
        acpi_tables.push(name);
        assert(acpi_tables.deep_view() == before.push(name@));
        if sig[0] == 87 && sig[1] == 80 && sig[2] == 66 && sig[3] == 84 {
            assert(sig@ == wpbt());
            wpbt_present = true;
        } else {
            assert(wpbt()[0] == 87 && wpbt()[1] == 80 && wpbt()[2] == 66 && wpbt()[3] == 84);
        }
        i += 1;
        assert(signature_texts(list@).take(i as int) == before.push(name@));
    }
    assert(signature_texts(list@).take(n as int) == signature_texts(list@));
    FirmwarePersistence {
        wpbt_present,
        wpbt_launcher_present: launcher_exists,
        acpi_tables,
        absolute_agent_artifacts: find_absolute_artifacts(agent_exists, proxy_exists),
    }
}

// ---------------------------------------------------------------------------
// Reports
// ---------------------------------------------------------------------------

/// Parse the SMBIOS table that the firmware handed out, once: both the identity report and
/// the memory probe are built from these same structures. A table that could not be read
/// has no structures and no version.
pub fn read_smbios(table: &Result<Vec<u8>, WinError>) -> (r: (Vec<SmbiosStructure>, Option<String>))
    ensures
        match table {
            Ok(raw) => r.0.deep_view() == smbios_structures(raw@) && r.1.deep_view()
                == version_text(raw@),
            Err(_) => r.0@.len() == 0 && r.1 is None,
        },
        4 * r.0@.len() <= u32::MAX,
{
    match table {
        Ok(raw) => {
            let version = smbios_version(raw.as_slice());
            (parse_smbios(raw.as_slice()), version)
        },
        Err(_) => (Vec::new(), None),
    }
}

/// Build the firmware report from already-parsed SMBIOS structures and from what is known
/// of firmware persistence.
pub fn probe_from(
    structs: &[SmbiosStructure],
    version: Option<String>,
    persistence: FirmwarePersistence,
) -> (r: FirmwareReport)
    ensures
        r.deep_view() == (FirmwareReportView {
            identity: identity_of(structs.deep_view(), version.deep_view()),
            persistence: persistence.deep_view(),
        }),
{
    FirmwareReport { identity: build_identity(structs, version), persistence }
}

/// The firmware report of a machine whose SMBIOS table is `table`.
pub fn probe(table: &Result<Vec<u8>, WinError>, persistence: FirmwarePersistence) -> (r:
    FirmwareReport)
    ensures
        r.deep_view() == (FirmwareReportView {
            identity: match table {
                Ok(raw) => identity_of(smbios_structures(raw@), version_text(raw@)),
                Err(_) => identity_of(seq![], None),
            },
            persistence: persistence.deep_view(),
        }),
{
    let (structs, version) = read_smbios(table);
    assert(structs@.len() == 0 ==> structs.deep_view() =~= seq![]);
    let all = structs.as_slice();
    assert(structs.deep_view() == all.deep_view());
    probe_from(all, version, persistence)
}

// ---------------------------------------------------------------------------
// Laws
// ---------------------------------------------------------------------------

/// A placeholder never reaches a report: a string that comes out of a structure is not
/// empty, has no white space around it, and is no placeholder.
pub proof fn strings_are_never_placeholders(s: SmbiosView, offset: int)
    ensures
        s.string_at(offset) matches Some(text) ==> text.len() > 0 && !placeholder(text) && exists|
            whole: Seq<char>,
        |
            s.strings.contains(whole) && text == #[trigger] trimmed(whole),
{
    if let Some(text) = s.string_at(offset) {
        let idx = s.formatted[offset];
        assert(s.strings.contains(s.strings[idx - 1]));
        assert(text == trimmed(s.strings[idx - 1]));
    }
}

/// Nothing follows the end-of-table marker.
pub proof fn the_end_marker_is_last(data: Seq<u8>, i: int)
    requires
        0 <= i < structures(data).len(),
        structures(data)[i].struct_type == 127,
    ensures
        i == structures(data).len() - 1,
    decreases data.len(),
{
    let rest = data.skip(data[1] as int);
    if data[0] != 127 {
        set_len_bound(rest);
        let after = rest.skip(tail_len(rest) as int);
        if i > 0 {
            assert(structures(data)[i] == structures(after)[i - 1]);
            the_end_marker_is_last(after, i - 1);
        }
    }
}

/// Every structure holds exactly the formatted bytes that its own header claims.
pub proof fn structures_hold_what_their_header_claims(data: Seq<u8>, i: int)
    requires
        0 <= i < structures(data).len(),
    ensures
        structures(data)[i].formatted.len() >= 4,
        structures(data)[i].formatted.len() == structures(data)[i].formatted[1],
        structures(data)[i].struct_type == structures(data)[i].formatted[0],
    decreases data.len(),
{
    let rest = data.skip(data[1] as int);
    if i > 0 {
        set_len_bound(rest);
        let after = rest.skip(tail_len(rest) as int);
        assert(structures(data)[i] == structures(after)[i - 1]);
        structures_hold_what_their_header_claims(after, i - 1);
    }
}

/// Strings in the form of a string set: each with its NUL, then one NUL more; two NULs
/// where there is no string.
pub open spec fn encoded_set(strings: Seq<Seq<u8>>) -> Seq<u8>
    decreases strings.len(),
{
    if strings.len() == 0 {
        seq![0u8]
    } else {
        strings[0] + seq![0u8] + encoded_set(strings.drop_first())
    }
}

/// A string that a string set can hold: not empty, and without a NUL.
pub open spec fn encodable(s: Seq<u8>) -> bool {
    s.len() > 0 && forall|i: int| 0 <= i < s.len() ==> s[i] != 0
}

proof fn first_nul_after(s: Seq<u8>, rest: Seq<u8>)
    requires
        forall|i: int| 0 <= i < s.len() ==> s[i] != 0,
    ensures
        first_nul(s + seq![0u8] + rest) == s.len(),
    decreases s.len(),
{
    let all = s + seq![0u8] + rest;
    if s.len() > 0 {
        assert(all[0] == s[0]);
        assert(all.drop_first() == s.drop_first() + seq![0u8] + rest);
        first_nul_after(s.drop_first(), rest);
    } else {
        assert(all[0] == 0);
    }
}

proof fn set_reads_back(strings: Seq<Seq<u8>>, rest: Seq<u8>)
    requires
        forall|i: int| 0 <= i < strings.len() ==> encodable(#[trigger] strings[i]),
    ensures
        set_strings(encoded_set(strings) + rest) == strings.map_values(|s: Seq<u8>| utf8_lossy(s)),
        set_len(encoded_set(strings) + rest) == encoded_set(strings).len(),
    decreases strings.len(),
{
    let all = encoded_set(strings) + rest;
    if strings.len() == 0 {
        assert(all[0] == 0);
        assert(set_strings(all) =~= strings.map_values(|s: Seq<u8>| utf8_lossy(s)));
    } else {
        let s = strings[0];
        let others = strings.drop_first();
        assert(encodable(s));
        assert(all == s + seq![0u8] + (encoded_set(others) + rest));
        first_nul_after(s, encoded_set(others) + rest);
        assert(all.take(s.len() as int) == s);
        assert(all.skip(s.len() as int + 1) == encoded_set(others) + rest);
        assert forall|i: int| 0 <= i < others.len() implies encodable(#[trigger] others[i]) by {
            assert(others[i] == strings[i + 1]);
        }
        set_reads_back(others, rest);
        assert(strings.map_values(|s: Seq<u8>| utf8_lossy(s)) == seq![utf8_lossy(s)]
            + others.map_values(|s: Seq<u8>| utf8_lossy(s)));
    }
}

/// The walk reads back what a well-formed structure says, and goes on with exactly the
/// bytes that follow it, whether the structure has strings or not.
pub proof fn a_well_formed_structure_reads_back(
    formatted: Seq<u8>,
    strings: Seq<Seq<u8>>,
    rest: Seq<u8>,
)
    requires
        4 <= formatted.len() <= 255,
        formatted[1] == formatted.len(),
        forall|i: int| 0 <= i < strings.len() ==> encodable(#[trigger] strings[i]),
    ensures
        ({
            let tail = if strings.len() == 0 {
                seq![0u8, 0u8]
            } else {
                encoded_set(strings)
            };
            structures(formatted + tail + rest) == seq![
                SmbiosView {
                    struct_type: formatted[0],
                    formatted,
                    strings: strings.map_values(|s: Seq<u8>| utf8_lossy(s)),
                },
            ] + if formatted[0] == 127 {
                seq![]
            } else {
                structures(rest)
            }
        }),
{
    let tail = if strings.len() == 0 {
        seq![0u8, 0u8]
    } else {
        encoded_set(strings)
    };
    let data = formatted + tail + rest;
    assert(data[0] == formatted[0] && data[1] == formatted[1]);
    assert(data.take(formatted.len() as int) == formatted);
    let after = data.skip(formatted.len() as int);
    assert(after == tail + rest);
    if strings.len() == 0 {
        assert(after[0] == 0 && after[1] == 0);
        assert(strings.map_values(|s: Seq<u8>| utf8_lossy(s)) =~= seq![]);
    } else {
        assert(encodable(strings[0]));
        assert(after[0] == strings[0][0]);
        set_reads_back(strings, rest);
    }
    assert(tail_len(after) == tail.len());
    assert(after.skip(tail.len() as int) == rest);
}

// ---------------------------------------------------------------------------
// From the bytes of a structure to the report
// ---------------------------------------------------------------------------

/// What the fields of a structure hold: a byte, or the number that two or four bytes write with
/// the least significant first. A field that reaches past the formatted area is not there.
pub proof fn fields_are_read_in_place(s: SmbiosView, off: int)
    requires
        0 <= off,
    ensures
        s.byte_at(off) == if off < s.formatted.len() {
            Some(s.formatted[off])
        } else {
            None
        },
        match s.word_at(off) {
            Some(w) => off + 1 < s.formatted.len() && w == s.formatted[off] + 256 * s.formatted[off
                + 1],
            None => off + 1 >= s.formatted.len(),
        },
        match s.dword_at(off) {
            Some(w) => off + 3 < s.formatted.len() && w == s.formatted[off] + 256 * s.formatted[off
                + 1] + 65536 * s.formatted[off + 2] + 16777216 * s.formatted[off + 3],
            None => off + 3 >= s.formatted.len(),
        },
{
}

/// A text that means nothing, in whatever case it is written and whatever blanks stand round it.
pub open spec fn is_dummy(s: Seq<char>) -> bool {
    let l = ascii_lower(trimmed(s));
    l == "none"@ || l == "n/a"@ || l == "default string"@ || l == "not specified"@ || l
        == "not applicable"@ || l == "unknown"@ || l == "system serial number"@ || l
        == "system manufacturer"@ || l == "system product name"@
}

/// Dummy texts, and texts that begin as those that a maker was to fill in, are placeholders; so
/// is what is made of zeros, dots and blanks alone.
pub proof fn dummies_are_placeholders(s: Seq<char>)
    ensures
        is_dummy(s) ==> placeholder(s),
        ({
            let l = ascii_lower(trimmed(s));
            &&& l.len() >= 12 && l.take(12) == "to be filled"@ ==> placeholder(s)
            &&& l.len() >= 4 && l.take(4) == "oem_"@ ==> placeholder(s)
            &&& (forall|i: int|
                0 <= i < l.len() ==> (#[trigger] l[i]) == '0' || l[i] == '.' || l[i] == ' ')
                ==> placeholder(s)
        }),
{
    reveal_strlit("to be filled");
    reveal_strlit("oem_");
    let l = ascii_lower(trimmed(s));
    assert("to be filled"@.len() == 12);
    assert("oem_"@.len() == 4);
    if l.len() >= 12 && l.take(12) == "to be filled"@ {
        assert(l.subrange(0, 12) =~= l.take(12));
        assert(begins_with(l, "to be filled"@));
    }
    if l.len() >= 4 && l.take(4) == "oem_"@ {
        assert(l.subrange(0, 4) =~= l.take(4));
        assert(begins_with(l, "oem_"@));
    }
}

/// A text with a digit from 1 to 9 in it is no placeholder, unless it begins as one that a maker
/// was to fill in: serial numbers and part numbers come through.
pub proof fn a_real_number_is_no_placeholder(s: Seq<char>, i: int)
    requires
        ({
            let l = ascii_lower(trimmed(s));
            &&& 0 <= i < l.len()
            &&& '1' <= l[i] <= '9'
            &&& l.len() >= 1 && l[0] != 't' && l[0] != 'o'
        }),
    ensures
        !placeholder(s),
{
    reveal_strlit("none");
    reveal_strlit("n/a");
    reveal_strlit("default string");
    reveal_strlit("not specified");
    reveal_strlit("not applicable");
    reveal_strlit("unknown");
    reveal_strlit("system serial number");
    reveal_strlit("system manufacturer");
    reveal_strlit("system product name");
    reveal_strlit("0");
    reveal_strlit("to be filled");
    reveal_strlit("oem_");
    let l = ascii_lower(trimmed(s));
    assert(!filler_char(l[i]));
    if begins_with(l, "to be filled"@) {
        assert(l.subrange(0, 12)[0] == l[0]);
    }
    if begins_with(l, "oem_"@) {
        assert(l.subrange(0, 4)[0] == l[0]);
    }
}

/// The string that a field refers to is the one at that place of the string table, counted from
/// one, without the blanks around it. There is none where the field is 0 or absent or counts past
/// the table, and none where the string is empty or a placeholder.
pub proof fn strings_are_counted_from_one(s: SmbiosView, off: int, n: int)
    requires
        0 <= off,
    ensures
        off >= s.formatted.len() ==> s.string_at(off) is None,
        off < s.formatted.len() && s.formatted[off] == n ==> s.string_at(off) == if 1 <= n
            <= s.strings.len() && trimmed(s.strings[n - 1]).len() > 0 && !placeholder(
            trimmed(s.strings[n - 1]),
        ) {
            Some(trimmed(s.strings[n - 1]))
        } else {
            None
        },
{
}

/// The table in a firmware blob starts behind the header's eight bytes and is as long as the
/// header's last four bytes say; what follows it does not matter, and where the header claims
/// more than there is, all there is counts.
pub proof fn the_header_bounds_the_table(header: Seq<u8>, table: Seq<u8>, more: Seq<u8>)
    requires
        header.len() == 8,
    ensures
        ({
            let length = header[4] + 256 * header[5] + 65536 * header[6] + 16777216 * header[7];
            &&& length == table.len() ==> smbios_structures(header + table + more) == structures(
                table,
            )
            &&& length >= table.len() ==> smbios_structures(header + table) == structures(table)
        }),
{
    let raw = header + table + more;
    let all = header + table;
    assert(raw[4] == header[4] && raw[5] == header[5] && raw[6] == header[6] && raw[7]
        == header[7]);
    assert(all[4] == header[4] && all[5] == header[5] && all[6] == header[6] && all[7]
        == header[7]);
    assert(raw.subrange(8, 8 + table.len() as int) =~= table);
    assert(all.subrange(8, 8 + table.len() as int) =~= table);
}

/// A header that is cut off, or that claims fewer than its own four bytes or more than there are,
/// ends the walk.
pub proof fn a_corrupt_header_ends_the_walk(data: Seq<u8>)
    ensures
        data.len() < 4 ==> structures(data).len() == 0,
        data.len() >= 4 && (data[1] < 4 || data[1] > data.len()) ==> structures(data).len() == 0,
        data.len() >= 4 && 4 <= data[1] <= data.len() ==> structures(data).len() > 0,
{
}

/// What chassis a code stands for. The highest bit only says that there is a lock, and does not
/// change it.
pub proof fn the_chassis_code_tells_the_form_factor(code: u8)
    requires
        code < 128,
    ensures
        form_factor_of((code + 128) as u8) == form_factor_of(code),
        form_factor_of(code) == FormFactor::Laptop <==> set![8u8, 9u8, 10u8, 14u8, 31u8, 32u8].contains(
            code,
        ),
        form_factor_of(code) == FormFactor::Tablet <==> set![11u8, 30u8].contains(code),
        form_factor_of(code) == FormFactor::AllInOne <==> code == 13,
        form_factor_of(code) == FormFactor::Desktop <==> set![
            3u8,
            4u8,
            5u8,
            6u8,
            7u8,
            15u8,
            16u8,
        ].contains(code),
        form_factor_of(code) == FormFactor::Server <==> set![17u8, 23u8, 28u8].contains(code),
{
}

/// Structure `i` is the first of its type.
pub open spec fn first_of_type(structs: Seq<SmbiosView>, t: u8, i: int) -> bool {
    0 <= i < structs.len() && structs[i].struct_type == t && forall|j: int|
        0 <= j < i ==> (#[trigger] structs[j]).struct_type != t
}

/// No structure has this type.
pub open spec fn none_of_type(structs: Seq<SmbiosView>, t: u8) -> bool {
    forall|j: int| 0 <= j < structs.len() ==> (#[trigger] structs[j]).struct_type != t
}

proof fn found_by_type(structs: Seq<SmbiosView>, t: u8, i: int)
    ensures
        first_of_type(structs, t, i) ==> structure_of_type(structs, t) == Some(structs[i]),
        none_of_type(structs, t) ==> structure_of_type(structs, t) is None,
    decreases structs.len(),
{
    if structs.len() > 0 {
        let rest = structs.drop_first();
        if first_of_type(structs, t, i) && i > 0 {
            assert(structs[0].struct_type != t);
            assert forall|j: int| 0 <= j < i - 1 implies (#[trigger] rest[j]).struct_type != t by {
                assert(rest[j] == structs[j + 1]);
            }
            assert(rest[i - 1] == structs[i]);
        }
        if none_of_type(structs, t) {
            assert(structs[0].struct_type != t);
            assert forall|j: int| 0 <= j < rest.len() implies (#[trigger] rest[j]).struct_type
                != t by {
                assert(rest[j] == structs[j + 1]);
            }
        }
        found_by_type(rest, t, i - 1);
    }
}

/// A text of the identity: as it is written, and implausible where there is none.
pub open spec fn shows_text(shown: ReadingView<Seq<char>>, text: Option<Seq<char>>) -> bool {
    match text {
        Some(t) => shown.get() == Some(t),
        None => shown.is_without(
            UnavailableView::ImplausibleValue("absent or an OEM placeholder"@),
        ),
    }
}

/// The identity's system fields come from the first structure of type 1, each from its own place,
/// and are not there without one.
pub proof fn system_fields_come_from_type_1(
    structs: Seq<SmbiosView>,
    version: Option<Seq<char>>,
    i: int,
)
    ensures
        ({
            let id = identity_of(structs, version);
            let s = structs[i];
            &&& first_of_type(structs, 1, i) ==> {
                &&& shows_text(id.manufacturer, s.string_at(4))
                &&& shows_text(id.product_name, s.string_at(5))
                &&& shows_text(id.version, s.string_at(6))
                &&& shows_text(id.serial_number, s.string_at(7))
                &&& shows_text(id.sku, s.string_at(25))
                &&& shows_text(id.family, s.string_at(26))
                &&& s.formatted.len() >= 24 ==> id.uuid.get() == Some(
                    uuid_text(s.formatted.subrange(8, 24)),
                )
                &&& s.formatted.len() < 24 ==> id.uuid.is_not_offered()
            }
            &&& none_of_type(structs, 1) ==> {
                &&& shows_text(id.manufacturer, None)
                &&& shows_text(id.product_name, None)
                &&& shows_text(id.version, None)
                &&& shows_text(id.serial_number, None)
                &&& shows_text(id.sku, None)
                &&& shows_text(id.family, None)
                &&& id.uuid.is_not_offered()
            }
        }),
{
    found_by_type(structs, 1, i);
}

/// The identity's BIOS fields come from the first structure of type 0 and its board fields from
/// the first of type 2, each from its own place, and are not there without one.
pub proof fn board_and_bios_fields_come_from_their_types(
    structs: Seq<SmbiosView>,
    version: Option<Seq<char>>,
    i: int,
)
    ensures
        ({
            let id = identity_of(structs, version);
            let s = structs[i];
            &&& first_of_type(structs, 0, i) ==> {
                &&& shows_text(id.bios_vendor, s.string_at(4))
                &&& shows_text(id.bios_version, s.string_at(5))
                &&& shows_text(id.bios_release_date, s.string_at(8))
            }
            &&& none_of_type(structs, 0) ==> {
                &&& shows_text(id.bios_vendor, None)
                &&& shows_text(id.bios_version, None)
                &&& shows_text(id.bios_release_date, None)
            }
            &&& first_of_type(structs, 2, i) ==> {
                &&& shows_text(id.baseboard_manufacturer, s.string_at(4))
                &&& shows_text(id.baseboard_product, s.string_at(5))
                &&& shows_text(id.baseboard_serial, s.string_at(7))
            }
            &&& none_of_type(structs, 2) ==> {
                &&& shows_text(id.baseboard_manufacturer, None)
                &&& shows_text(id.baseboard_product, None)
                &&& shows_text(id.baseboard_serial, None)
            }
            &&& id.smbios_version.shows(version)
        }),
{
    found_by_type(structs, 0, i);
    found_by_type(structs, 2, i);
}

/// The form factor comes from byte 5 of the first structure of type 3, and is unknown without it.
pub proof fn the_form_factor_comes_from_type_3(
    structs: Seq<SmbiosView>,
    version: Option<Seq<char>>,
    i: int,
)
    ensures
        ({
            let id = identity_of(structs, version);
            let s = structs[i];
            &&& first_of_type(structs, 3, i) && s.formatted.len() > 5 ==> id.form_factor
                == form_factor_of(s.formatted[5]) && id.chassis_type_code.get() == Some(
                s.formatted[5],
            )
            &&& none_of_type(structs, 3) || first_of_type(structs, 3, i) && s.formatted.len() <= 5
                ==> id.form_factor == FormFactor::Unknown && id.chassis_type_code.is_not_offered()
        }),
{
    found_by_type(structs, 3, i);
}

/// Where the first hexadecimal digit of byte `k` stands in a UUID's text. The first three groups
/// are stored with the least significant byte first.
pub open spec fn uuid_place(k: int) -> int {
    if k < 4 {
        6 - 2 * k
    } else if k < 6 {
        9 + 2 * (5 - k)
    } else if k < 8 {
        14 + 2 * (7 - k)
    } else if k < 10 {
        19 + 2 * (k - 8)
    } else {
        24 + 2 * (k - 10)
    }
}

/// The text of a UUID: 36 characters, with a dash at 8, 13, 18 and 23, and the digits of each byte
/// in their place.
pub proof fn a_uuid_has_every_byte_in_its_place(b: Seq<u8>, k: int)
    requires
        0 <= k < 16,
    ensures
        ({
            let text = uuid_text(b);
            &&& text.len() == 36
            &&& text[8] == '-' && text[13] == '-' && text[18] == '-' && text[23] == '-'
            &&& text[uuid_place(k)] == hex2(b[k])[0]
            &&& text[uuid_place(k) + 1] == hex2(b[k])[1]
        }),
{
    reveal_strlit("-");
    let text = uuid_text(b);
    assert(text =~= seq![
        hex2(b[3])[0], hex2(b[3])[1], hex2(b[2])[0], hex2(b[2])[1],
        hex2(b[1])[0], hex2(b[1])[1], hex2(b[0])[0], hex2(b[0])[1], '-',
        hex2(b[5])[0], hex2(b[5])[1], hex2(b[4])[0], hex2(b[4])[1], '-',
        hex2(b[7])[0], hex2(b[7])[1], hex2(b[6])[0], hex2(b[6])[1], '-',
        hex2(b[8])[0], hex2(b[8])[1], hex2(b[9])[0], hex2(b[9])[1], '-',
        hex2(b[10])[0], hex2(b[10])[1], hex2(b[11])[0], hex2(b[11])[1],
        hex2(b[12])[0], hex2(b[12])[1], hex2(b[13])[0], hex2(b[13])[1],
        hex2(b[14])[0], hex2(b[14])[1], hex2(b[15])[0], hex2(b[15])[1]
    ]);
}

/// The version is the header's second byte, a point, and its third; a blob too short for them has
/// none.
pub proof fn the_version_is_in_the_header(raw: Seq<u8>)
    ensures
        raw.len() >= 3 ==> version_text(raw) == Some(dec(raw[1] as nat) + "."@ + dec(raw[2] as nat)),
        raw.len() < 3 ==> version_text(raw) is None,
{
}

/// The list of tables names the WPBT exactly where the letters W, P, B and T follow each other
/// from a place that four divides.
pub proof fn the_wpbt_is_found_by_its_letters(list: Seq<u8>)
    ensures
        lists_wpbt(list) <==> exists|k: int|
            0 <= k && k % 4 == 0 && k + 3 < list.len() && #[trigger] list[k] == 'W' as u8 && list[k
                + 1] == 'P' as u8 && list[k + 2] == 'B' as u8 && list[k + 3] == 'T' as u8,
{
    if lists_wpbt(list) {
        let i = choose|i: int| 0 <= i < list.len() / 4 && #[trigger] signature(list, i) == wpbt();
        let s = signature(list, i);
        assert(s[0] == list[4 * i] && s[1] == list[4 * i + 1] && s[2] == list[4 * i + 2] && s[3]
            == list[4 * i + 3]);
        assert(list[4 * i] == 'W' as u8);
    }
    if exists|k: int|
        0 <= k && k % 4 == 0 && k + 3 < list.len() && #[trigger] list[k] == 'W' as u8 && list[k + 1]
            == 'P' as u8 && list[k + 2] == 'B' as u8 && list[k + 3] == 'T' as u8 {
        let k = choose|k: int|
            0 <= k && k % 4 == 0 && k + 3 < list.len() && #[trigger] list[k] == 'W' as u8 && list[k
                + 1] == 'P' as u8 && list[k + 2] == 'B' as u8 && list[k + 3] == 'T' as u8;
        let i = k / 4;
        assert(4 * i == k);
        assert(signature(list, i) =~= wpbt());
    }
}

/// Every four bytes of the list are the signature of one table, in the order of the list.
pub proof fn every_table_is_listed(list: Seq<u8>, i: int)
    ensures
        4 * signature_texts(list).len() <= list.len() < 4 * signature_texts(list).len() + 4,
        0 <= i && 4 * i + 4 <= list.len() ==> signature_texts(list)[i] == trimmed(
            utf8_lossy(seq![list[4 * i], list[4 * i + 1], list[4 * i + 2], list[4 * i + 3]]),
        ),
{
    if 0 <= i && 4 * i + 4 <= list.len() {
        assert(signature(list, i) =~= seq![
            list[4 * i],
            list[4 * i + 1],
            list[4 * i + 2],
            list[4 * i + 3],
        ]);
    }
}

/// The first NUL is where no NUL stands before: at `e`, if that byte is one or the bytes end
/// there.
pub proof fn the_first_nul_is_first(s: Seq<u8>, e: int)
    requires
        0 <= e <= s.len(),
        forall|k: int| 0 <= k < e ==> s[k] != 0,
        e == s.len() || s[e] == 0,
    ensures
        first_nul(s) == e,
{
    first_nul_bound(s);
}

/// The artifacts that are listed are those that exist: each once, and the agent before its proxy.
pub proof fn artifacts_are_listed_where_they_exist(agent: bool, proxy: bool, found: Vec<String>)
    requires
        call_ensures(find_absolute_artifacts, (agent, proxy), found),
    ensures
        found.deep_view().len() == (if agent {
            1int
        } else {
            0
        }) + (if proxy {
            1int
        } else {
            0
        }),
        agent ==> found.deep_view()[0] == "C:\\Windows\\System32\\rpcnet.exe"@,
        proxy ==> found.deep_view().last() == "C:\\Windows\\System32\\rpcnetp.exe"@,
{
}

} // verus!
