//! CPU topology and identity, from what `CPUID` and the operating system report.
use vstd::prelude::*;

use crate::bytes::{le32, read_le32};
use crate::model::{Reading, ReadingView};
use crate::text::{chars_of, from_utf8_lossy, is_white_space, slice_of, string_of, utf8_lossy, white_space};

verus! {

#[derive(Debug, Clone, Copy, PartialEq, Eq, Structural)]
pub enum CpuVendor {
    Intel,
    Amd,
    Other,
}

#[derive(Debug, Clone)]
pub struct CpuTopology {
    pub vendor: CpuVendor,
    pub brand_string: Reading<String>,
    pub physical_cores: Reading<u32>,
    pub logical_processors: u32,
    /// From CPUID leaf 0x16 on Intel. The dataset of known processors is the source of truth
    /// for "what should this clock be"; this field is only a fallback for a part that is not
    /// in it.
    pub base_clock_mhz: Reading<u32>,
}

/// The mathematical model of [`CpuTopology`].
#[verifier::ext_equal]
pub struct CpuTopologyView {
    pub vendor: CpuVendor,
    pub brand_string: ReadingView<Seq<char>>,
    pub physical_cores: ReadingView<u32>,
    pub logical_processors: u32,
    pub base_clock_mhz: ReadingView<u32>,
}

impl DeepView for CpuTopology {
    type V = CpuTopologyView;

    open spec fn deep_view(&self) -> CpuTopologyView {
        CpuTopologyView {
            vendor: self.vendor,
            brand_string: self.brand_string.deep_view(),
            physical_cores: self.physical_cores.deep_view(),
            logical_processors: self.logical_processors,
            base_clock_mhz: self.base_clock_mhz.deep_view(),
        }
    }
}

/// The four bytes of a register, least significant first.
pub open spec fn register_bytes(r: u32) -> Seq<u8> {
    seq![
        (r as int % 256) as u8,
        (r as int / 256 % 256) as u8,
        (r as int / 65536 % 256) as u8,
        (r as int / 16777216) as u8,
    ]
}

/// The bytes of these registers, one after another.
pub open spec fn registers_bytes(regs: Seq<u32>) -> Seq<u8>
    decreases regs.len(),
{
    if regs.len() == 0 {
        seq![]
    } else {
        registers_bytes(regs.drop_last()) + register_bytes(regs.last())
    }
}

fn push_register(v: &mut Vec<u8>, r: u32)
    ensures
        final(v)@ == old(v)@ + register_bytes(r),
{
    v.push((r % 256) as u8);
    v.push((r / 256 % 256) as u8);
    v.push((r / 65536 % 256) as u8);
    v.push((r / 16777216) as u8);
    assert(v@ =~= old(v)@ + register_bytes(r));
}

fn bytes_of_registers(regs: &[u32]) -> (v: Vec<u8>)
    ensures
        v@ == registers_bytes(regs@),
{
    let mut v: Vec<u8> = Vec::new();
    let mut i: usize = 0;
    while i < regs.len()
        invariant
            i <= regs.len(),
            v@ == registers_bytes(regs@.take(i as int)),
        decreases regs.len() - i,
    {
        assert(regs@.take(i + 1).drop_last() == regs@.take(i as int));
        push_register(&mut v, regs[i]);
        i += 1;
    }
    assert(regs@.take(regs@.len() as int) == regs@);
    v
}

/// "GenuineIntel"
pub open spec fn intel_name() -> Seq<u8> {
    seq![71u8, 101u8, 110u8, 117u8, 105u8, 110u8, 101u8, 73u8, 110u8, 116u8, 101u8, 108u8]
}

/// "AuthenticAMD"
pub open spec fn amd_name() -> Seq<u8> {
    seq![65u8, 117u8, 116u8, 104u8, 101u8, 110u8, 116u8, 105u8, 99u8, 65u8, 77u8, 68u8]
}

/// The vendor that CPUID leaf 0 names: EBX, EDX and ECX, in that order, spell it.
pub open spec fn vendor_of(ebx: u32, edx: u32, ecx: u32) -> CpuVendor {
    let name = register_bytes(ebx) + register_bytes(edx) + register_bytes(ecx);
    if name == intel_name() {
        CpuVendor::Intel
    } else if name == amd_name() {
        CpuVendor::Amd
    } else {
        CpuVendor::Other
    }
}

fn same_bytes(a: &Vec<u8>, b: &Vec<u8>) -> (r: bool)
    ensures
        r == (a@ == b@),
{
    if a.len() != b.len() {
        return false;
    }
    let mut i: usize = 0;
    while i < a.len()
        invariant
            i <= a.len(),
            a.len() == b.len(),
            forall|j: int| 0 <= j < i ==> a@[j] == b@[j],
        decreases a.len() - i,
    {
        if a[i] != b[i] {
            return false;
        }
        i += 1;
    }
    assert(a@ =~= b@);
    true
}

/// CPUID leaf 0: EBX:EDX:ECX (in that order) spell the 12-character vendor string.
pub fn detect_vendor(ebx: u32, edx: u32, ecx: u32) -> (r: CpuVendor)
    ensures
        r == vendor_of(ebx, edx, ecx),
{
    let mut name: Vec<u8> = Vec::new();
    push_register(&mut name, ebx);
    push_register(&mut name, edx);
    push_register(&mut name, ecx);
    let intel: Vec<u8> = vec![71, 101, 110, 117, 105, 110, 101, 73, 110, 116, 101, 108];
    let amd: Vec<u8> = vec![65, 117, 116, 104, 101, 110, 116, 105, 99, 65, 77, 68];
    assert(name@ =~= register_bytes(ebx) + register_bytes(edx) + register_bytes(ecx));
    assert(intel@ =~= intel_name());
    assert(amd@ =~= amd_name());
    if same_bytes(&name, &intel) {
        CpuVendor::Intel
    } else if same_bytes(&name, &amd) {
        CpuVendor::Amd
    } else {
        CpuVendor::Other
    }
}

/// A character that pads a brand string.
pub open spec fn is_padding(c: char) -> bool {
    c == '\0' || white_space(c)
}

/// The text without the padding at its start.
pub open spec fn strip_start(s: Seq<char>) -> Seq<char>
    decreases s.len(),
{
    if s.len() > 0 && is_padding(s[0]) {
        strip_start(s.drop_first())
    } else {
        s
    }
}

/// The text without the padding at its end.
pub open spec fn strip_end(s: Seq<char>) -> Seq<char>
    decreases s.len(),
{
    if s.len() > 0 && is_padding(s.last()) {
        strip_end(s.drop_last())
    } else {
        s
    }
}

fn strip_padding(s: &str) -> (r: String)
    ensures
        r@ == strip_end(strip_start(s@)),
{
    let v = chars_of(s);
    let n = v.len();
    let mut i: usize = 0;
    assert(v@.subrange(0, n as int) == v@);
    while i < n && (v[i] == '\0' || is_white_space(v[i]))
        invariant
            n == v.len(),
            i <= n,
            strip_start(v@) == strip_start(v@.subrange(i as int, n as int)),
        decreases n - i,
    {
        assert(v@.subrange(i as int, n as int).drop_first() == v@.subrange(i + 1, n as int));
        i += 1;
    }
    assert(strip_start(v@) == v@.subrange(i as int, n as int));
    let mut j: usize = n;
    while i < j && (v[j - 1] == '\0' || is_white_space(v[j - 1]))
        invariant
            n == v.len(),
            i <= j <= n,
            strip_end(v@.subrange(i as int, n as int)) == strip_end(
                v@.subrange(i as int, j as int),
            ),
        decreases j,
    {
        assert(v@.subrange(i as int, j as int).drop_last() == v@.subrange(i as int, j - 1));
        j -= 1;
    }
    string_of(slice_of(&v, i, j))
}

/// The brand string in CPUID leaves 0x80000002 to 0x80000004: 48 bytes, four registers per
/// leaf, padded with NULs and spaces. The highest extended leaf tells whether they exist.
pub open spec fn brand_of(max_extended_leaf: u32, regs: Seq<u32>) -> Option<Seq<char>> {
    if max_extended_leaf < 0x8000_0004 {
        None
    } else {
        let s = strip_end(strip_start(utf8_lossy(registers_bytes(regs))));
        if s.len() == 0 {
            None
        } else {
            Some(s)
        }
    }
}

/// CPUID leaves 0x80000002-0x80000004: 48-byte NUL-padded ASCII brand string, four registers
/// per leaf, EAX:EBX:ECX:EDX order.
pub fn brand_string(max_extended_leaf: u32, regs: &[u32]) -> (r: Option<String>)
    ensures
        r.deep_view() == brand_of(max_extended_leaf, regs@),
{
    if max_extended_leaf < 0x8000_0004 {
        return None;
    }
    let bytes = bytes_of_registers(regs);
    let text = from_utf8_lossy(bytes.as_slice());
    let s = strip_padding(text.as_str());
    if s.as_str().is_empty() {
        None
    } else {
        Some(s)
    }
}

/// The base clock in CPUID leaf 0x16: the low 16 bits of EAX, in MHz.
pub open spec fn leaf16_clock(max_leaf: u32, leaf16_eax: u32) -> Option<u32> {
    let mhz = leaf16_eax % 0x1_0000;
    if max_leaf < 0x16 || mhz == 0 {
        None
    } else {
        Some(mhz)
    }
}

/// CPUID leaf 0x16 ("Processor Frequency Information", Intel-only): EAX holds the base
/// frequency in MHz directly.
pub fn intel_base_clock_mhz(max_leaf: u32, leaf16_eax: u32) -> (r: Option<u32>)
    ensures
        r == leaf16_clock(max_leaf, leaf16_eax),
{
    if max_leaf < 0x16 {
        return None;
    }
    let mhz = leaf16_eax % 0x1_0000;
    if mhz == 0 {
        None
    } else {
        Some(mhz)
    }
}

/// The base clock that a processor reports. Only Intel implements leaf 0x16; for AMD the
/// dataset of known processors is the source.
pub fn base_clock_mhz(vendor: CpuVendor, max_leaf: u32, leaf16_eax: u32) -> (r: Reading<u32>)
    ensures
        r.deep_view() == ReadingView::from_option(
            if vendor == CpuVendor::Intel {
                leaf16_clock(max_leaf, leaf16_eax)
            } else {
                None
            },
        ),
{
    match vendor {
        CpuVendor::Intel => Reading::from(intel_base_clock_mhz(max_leaf, leaf16_eax)),
        _ => Reading::unsupported(),
    }
}

/// The number of records in a buffer of processor records. Each states its own size at
/// offset 4; a size of zero, or one that reaches past the end, ends the walk.
pub open spec fn core_records(buf: Seq<u8>) -> nat
    decreases buf.len(),
{
    if buf.len() < 8 || le32(buf, 4) == 0 || le32(buf, 4) > buf.len() {
        0
    } else {
        1 + core_records(buf.skip(le32(buf, 4) as int))
    }
}

/// Walk the buffer of processor records, advancing by each record's own size field: the only
/// safe way to iterate it, since the records differ in length. One record stands for one
/// physical core, whatever its SMT width.
pub fn count_core_records(buf: &[u8]) -> (count: u32)
    requires
        buf@.len() <= u32::MAX,
    ensures
        count == core_records(buf@),
{
    let mut count: u32 = 0;
    let mut offset: usize = 0;
    assert(buf@.skip(0) == buf@);
    while buf.len() - offset >= 8
        invariant_except_break
            offset <= buf.len() <= u32::MAX,
            count <= offset,
            core_records(buf@) == count + core_records(buf@.skip(offset as int)),
        ensures
            count == core_records(buf@),
        decreases buf.len() - offset,
    {
        let ghost rest = buf@.skip(offset as int);
        let size = read_le32(buf, offset + 4) as usize;
        assert(le32(rest, 4) == size);
        if size == 0 || size > buf.len() - offset {
            break;
        }
        assert(rest.skip(size as int) == buf@.skip(offset + size));
        count += 1;
        offset += size;
    }
    count
}

/// What `CPUID` and the operating system report about the processor.
#[derive(Debug, Clone)]
pub struct CpuFacts {
    /// EAX, EBX, ECX and EDX of leaf 0.
    pub max_leaf: u32,
    pub vendor_ebx: u32,
    pub vendor_ecx: u32,
    pub vendor_edx: u32,
    /// EAX of leaf 0x80000000.
    pub max_extended_leaf: u32,
    /// EAX, EBX, ECX and EDX of leaves 0x80000002 to 0x80000004.
    pub brand: Vec<u32>,
    /// EAX of leaf 0x16, where that leaf exists.
    pub leaf16_eax: u32,
    /// The processor records, where they could be read.
    pub core_records: Option<Vec<u8>>,
    /// The number of logical processors, where it is known.
    pub logical_processors: Option<u32>,
}

/// The topology that these facts tell.
pub open spec fn topology_of(f: CpuFacts) -> CpuTopologyView {
    let vendor = vendor_of(f.vendor_ebx, f.vendor_edx, f.vendor_ecx);
    CpuTopologyView {
        vendor,
        brand_string: ReadingView::from_option(brand_of(f.max_extended_leaf, f.brand@)),
        physical_cores: match f.core_records {
            Some(buf) => ReadingView::value(core_records(buf@) as u32),
            None => ReadingView::unsupported(),
        },
        logical_processors: match f.logical_processors {
            Some(n) => n,
            None => 1,
        },
        base_clock_mhz: ReadingView::from_option(
            if vendor == CpuVendor::Intel {
                leaf16_clock(f.max_leaf, f.leaf16_eax)
            } else {
                None
            },
        ),
    }
}

/// CPU topology and identity.
pub fn probe(f: &CpuFacts) -> (r: CpuTopology)
    requires
        f.core_records matches Some(buf) ==> buf@.len() <= u32::MAX,
    ensures
        r.deep_view() == topology_of(*f),
{
    let vendor = detect_vendor(f.vendor_ebx, f.vendor_edx, f.vendor_ecx);
    CpuTopology {
        vendor,
        brand_string: Reading::from(brand_string(f.max_extended_leaf, f.brand.as_slice())),
        physical_cores: match &f.core_records {
            Some(buf) => Reading::value(count_core_records(buf.as_slice())),
            None => Reading::unsupported(),
        },
        logical_processors: match f.logical_processors {
            Some(n) => n,
            None => 1,
        },
        base_clock_mhz: base_clock_mhz(vendor, f.max_leaf, f.leaf16_eax),
    }
}

// ---------------------------------------------------------------------------
// Laws
// ---------------------------------------------------------------------------

/// The walk never counts more records than fit: a record takes at least one byte.
pub proof fn records_fit_in_their_buffer(buf: Seq<u8>)
    ensures
        core_records(buf) <= buf.len(),
    decreases buf.len(),
{
    if !(buf.len() < 8 || le32(buf, 4) == 0 || le32(buf, 4) > buf.len()) {
        records_fit_in_their_buffer(buf.skip(le32(buf, 4) as int));
    }
}

/// The vendor is known by the twelve letters in the registers EBX, EDX and ECX, four in each with
/// the first in the lowest byte: "Genu", "ineI", "ntel" or "Auth", "enti", "cAMD".
pub proof fn the_vendor_is_spelt_in_the_registers(ebx: u32, edx: u32, ecx: u32)
    ensures
        vendor_of(ebx, edx, ecx) == CpuVendor::Intel <==> ebx == 0x756e_6547 && edx == 0x4965_6e69
            && ecx == 0x6c65_746e,
        vendor_of(ebx, edx, ecx) == CpuVendor::Amd <==> ebx == 0x6874_7541 && edx == 0x6974_6e65
            && ecx == 0x444d_4163,
{
    a_register_is_its_bytes(ebx);
    a_register_is_its_bytes(edx);
    a_register_is_its_bytes(ecx);
    let name = register_bytes(ebx) + register_bytes(edx) + register_bytes(ecx);
    assert(name[0] == register_bytes(ebx)[0] && name[1] == register_bytes(ebx)[1] && name[2]
        == register_bytes(ebx)[2] && name[3] == register_bytes(ebx)[3]);
    assert(name[4] == register_bytes(edx)[0] && name[5] == register_bytes(edx)[1] && name[6]
        == register_bytes(edx)[2] && name[7] == register_bytes(edx)[3]);
    assert(name[8] == register_bytes(ecx)[0] && name[9] == register_bytes(ecx)[1] && name[10]
        == register_bytes(ecx)[2] && name[11] == register_bytes(ecx)[3]);
    if name == intel_name() {
        let i = intel_name();
        assert(name[0] == i[0] && name[1] == i[1] && name[2] == i[2] && name[3] == i[3]);
        assert(name[4] == i[4] && name[5] == i[5] && name[6] == i[6] && name[7] == i[7]);
        assert(name[8] == i[8] && name[9] == i[9] && name[10] == i[10] && name[11] == i[11]);
    }
    if name == amd_name() {
        let i = amd_name();
        assert(name[0] == i[0] && name[1] == i[1] && name[2] == i[2] && name[3] == i[3]);
        assert(name[4] == i[4] && name[5] == i[5] && name[6] == i[6] && name[7] == i[7]);
        assert(name[8] == i[8] && name[9] == i[9] && name[10] == i[10] && name[11] == i[11]);
    }
    if ebx == 0x756e_6547 && edx == 0x4965_6e69 && ecx == 0x6c65_746e {
        assert(name =~= intel_name());
    }
    if ebx == 0x6874_7541 && edx == 0x6974_6e65 && ecx == 0x444d_4163 {
        assert(name =~= amd_name());
    }
    assert(intel_name()[0] != amd_name()[0]);
}

proof fn a_register_is_its_bytes(r: u32)
    ensures
        ({
            let b = register_bytes(r);
            b[0] + 256 * b[1] + 65536 * b[2] + 16777216 * b[3] == r
        }),
{
    assert(r % 256 + 256 * (r / 256 % 256) + 65536 * (r / 65536 % 256) + 16777216 * (r / 16777216)
        == r) by (bit_vector);
}

/// The bytes of the registers stand one behind another, four to a register, the lowest first.
pub proof fn registers_are_taken_apart(regs: Seq<u32>, i: int)
    requires
        0 <= i < regs.len(),
    ensures
        registers_bytes(regs).len() == 4 * regs.len(),
        ({
            let b = registers_bytes(regs);
            b[4 * i] + 256 * b[4 * i + 1] + 65536 * b[4 * i + 2] + 16777216 * b[4 * i + 3]
                == regs[i]
        }),
    decreases regs.len(),
{
    let head = regs.drop_last();
    if head.len() > 0 {
        registers_are_taken_apart(head, if i < head.len() {
            i
        } else {
            0
        });
    }
    assert(registers_bytes(head).len() == 4 * head.len());
    let b = registers_bytes(regs);
    if i < head.len() {
        let h = registers_bytes(head);
        assert(b[4 * i] == h[4 * i] && b[4 * i + 1] == h[4 * i + 1] && b[4 * i + 2] == h[4 * i + 2]
            && b[4 * i + 3] == h[4 * i + 3]);
    } else {
        let r = register_bytes(regs.last());
        a_register_is_its_bytes(regs.last());
        assert(b[4 * i] == r[0] && b[4 * i + 1] == r[1] && b[4 * i + 2] == r[2] && b[4 * i + 3]
            == r[3]);
    }
}

proof fn strip_start_cuts(s: Seq<char>) -> (i: int)
    ensures
        0 <= i <= s.len(),
        strip_start(s) == s.subrange(i, s.len() as int),
        forall|k: int| 0 <= k < i ==> is_padding(#[trigger] s[k]),
        i < s.len() ==> !is_padding(s[i]),
    decreases s.len(),
{
    if s.len() > 0 && is_padding(s[0]) {
        let i = strip_start_cuts(s.drop_first());
        assert forall|k: int| 0 <= k < i + 1 implies is_padding(#[trigger] s[k]) by {
            if k > 0 {
                assert(s[k] == s.drop_first()[k - 1]);
            }
        }
        i + 1
    } else {
        0
    }
}

proof fn strip_end_cuts(s: Seq<char>) -> (j: int)
    ensures
        0 <= j <= s.len(),
        strip_end(s) == s.subrange(0, j),
        forall|k: int| j <= k < s.len() ==> is_padding(#[trigger] s[k]),
        j > 0 ==> !is_padding(s[j - 1]),
    decreases s.len(),
{
    if s.len() > 0 && is_padding(s.last()) {
        let j = strip_end_cuts(s.drop_last());
        assert forall|k: int| j <= k < s.len() implies is_padding(#[trigger] s[k]) by {
            if k < s.len() - 1 {
                assert(s[k] == s.drop_last()[k]);
            }
        }
        j
    } else {
        s.len() as int
    }
}

/// A brand string is the text in its registers without the NULs and blanks around it: nothing else
/// is taken away, and none of them is left at either end. It is there where the processor has the
/// leaves that hold it and the text is more than padding.
pub proof fn a_brand_loses_only_its_padding(max_extended_leaf: u32, regs: Seq<u32>)
    ensures
        ({
            let text = utf8_lossy(registers_bytes(regs));
            match brand_of(max_extended_leaf, regs) {
                Some(s) => {
                    &&& max_extended_leaf >= 0x8000_0004
                    &&& s.len() > 0
                    &&& s[0] != '\0' && !white_space(s[0])
                    &&& s[s.len() - 1] != '\0' && !white_space(s[s.len() - 1])
                    &&& exists|i: int, j: int|
                        {
                            &&& 0 <= i <= j <= text.len()
                            &&& s == #[trigger] text.subrange(i, j)
                            &&& forall|k: int|
                                0 <= k < i || j <= k < text.len() ==> (#[trigger] text[k]) == '\0'
                                    || white_space(text[k])
                        }
                },
                None => max_extended_leaf < 0x8000_0004 || forall|k: int|
                    0 <= k < text.len() ==> (#[trigger] text[k]) == '\0' || white_space(text[k]),
            }
        }),
{
    let text = utf8_lossy(registers_bytes(regs));
    let i = strip_start_cuts(text);
    let rest = strip_start(text);
    let j = strip_end_cuts(rest);
    let s = strip_end(rest);
    assert(s =~= text.subrange(i, i + j));
    assert forall|k: int| 0 <= k < i || i + j <= k < text.len() implies (#[trigger] text[k])
        == '\0' || white_space(text[k]) by {
        if k >= i + j {
            assert(text[k] == rest[k - i]);
        }
        assert(is_padding(text[k]));
    }
    if s.len() > 0 {
        assert(s[0] == rest[0] && rest[0] == text[i]);
        assert(s[s.len() - 1] == rest[j - 1]);
    }
}

/// The base clock that a processor reports is the lower half of EAX in leaf 0x16: only an Intel
/// part with that leaf has one, and 0 is none.
pub proof fn only_intel_reports_a_base_clock(f: CpuFacts)
    ensures
        ({
            let mhz = f.leaf16_eax as int % 65536;
            let intel = topology_of(f).vendor == CpuVendor::Intel;
            topology_of(f).base_clock_mhz.shows(
                if intel && f.max_leaf >= 22 && mhz != 0 {
                    Some(mhz as u32)
                } else {
                    None
                },
            )
        }),
        topology_of(f).vendor == vendor_of(f.vendor_ebx, f.vendor_edx, f.vendor_ecx),
        topology_of(f).brand_string.shows(brand_of(f.max_extended_leaf, f.brand@)),
        match f.logical_processors {
            Some(n) => topology_of(f).logical_processors == n,
            None => topology_of(f).logical_processors == 1,
        },
        f.core_records is None ==> topology_of(f).physical_cores.is_not_offered(),
        f.core_records matches Some(buf) ==> topology_of(f).physical_cores.get() == Some(
            core_records(buf@) as u32,
        ),
{
}

/// Every record counts once and is passed over by its own size, which its bytes 4 to 7 state; one
/// that states no size, or more than is left, ends the count, as does a rest of fewer than eight
/// bytes.
pub proof fn every_core_record_counts_once(record: Seq<u8>, rest: Seq<u8>)
    ensures
        ({
            let size = record[4] + 256 * record[5] + 65536 * record[6] + 16777216 * record[7];
            &&& record.len() >= 8 && size == record.len() ==> core_records(record + rest) == 1
                + core_records(rest)
            &&& record.len() >= 8 && (size == 0 || size > record.len()) ==> core_records(record)
                == 0
            &&& record.len() < 8 ==> core_records(record) == 0
        }),
{
    let all = record + rest;
    if record.len() >= 8 {
        assert(all[4] == record[4] && all[5] == record[5] && all[6] == record[6] && all[7]
            == record[7]);
        assert(all.skip(record.len() as int) =~= rest);
    }
}

} // verus!
