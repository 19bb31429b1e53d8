//! Little-endian numbers in byte sequences.
use vstd::prelude::*;

verus! {

/// The 16-bit number at `i`, least significant byte first.
pub open spec fn le16(s: Seq<u8>, i: int) -> u16 {
    (s[i] + 256 * s[i + 1]) as u16
}

/// The 32-bit number at `i`, least significant byte first.
pub open spec fn le32(s: Seq<u8>, i: int) -> u32 {
    (s[i] + 256 * s[i + 1] + 65536 * s[i + 2] + 16777216 * s[i + 3]) as u32
}

pub fn read_le16(s: &[u8], i: usize) -> (r: u16)
    requires
        i + 2 <= s.len(),
    ensures
        r == le16(s@, i as int),
{
    s[i] as u16 + 256u16 * s[i + 1] as u16
}

pub fn read_le32(s: &[u8], i: usize) -> (r: u32)
    requires
        i + 4 <= s.len(),
    ensures
        r == le32(s@, i as int),
{
    s[i] as u32 + 256u32 * s[i + 1] as u32 + 65536u32 * s[i + 2] as u32 + 16777216u32 * s[i
        + 3] as u32
}

/// The 48-bit number at `i`, least significant byte first.
pub open spec fn le48(s: Seq<u8>, i: int) -> u64 {
    (s[i] + 256 * s[i + 1] + 65536 * s[i + 2] + 16777216 * s[i + 3] + 4294967296 * s[i + 4]
        + 1099511627776 * s[i + 5]) as u64
}

pub fn read_le48(s: &[u8], i: usize) -> (r: u64)
    requires
        i + 6 <= s.len(),
    ensures
        r == le48(s@, i as int),
{
    s[i] as u64 + 256u64 * s[i + 1] as u64 + 65536u64 * s[i + 2] as u64 + 16777216u64 * s[i
        + 3] as u64 + 4294967296u64 * s[i + 4] as u64 + 1099511627776u64 * s[i + 5] as u64
}

/// The 64-bit number at `i`, least significant byte first.
pub open spec fn le64(s: Seq<u8>, i: int) -> u64 {
    (le32(s, i) + 4294967296 * le32(s, i + 4)) as u64
}

pub fn read_le64(s: &[u8], i: usize) -> (r: u64)
    requires
        i + 8 <= s.len(),
    ensures
        r == le64(s@, i as int),
{
    read_le32(s, i) as u64 + 4294967296u64 * read_le32(s, i + 4) as u64
}

/// Append `n` zero bytes.
pub fn push_zeros(v: &mut Vec<u8>, n: usize)
    ensures
        final(v)@ == old(v)@ + Seq::new(n as nat, |i: int| 0u8),
{
    let ghost start = v@;
    let mut k: usize = 0;
    while k < n
        invariant
            k <= n,
            v@ == start + Seq::new(k as nat, |i: int| 0u8),
        decreases n - k,
    {
        v.push(0);
        k += 1;
        assert(v@ =~= start + Seq::new(k as nat, |i: int| 0u8));
    }
}

/// Append a 32-bit number, least significant byte first.
pub fn push_le32(v: &mut Vec<u8>, n: u32)
    ensures
        final(v)@.len() == old(v)@.len() + 4,
        final(v)@.take(old(v)@.len() as int) == old(v)@,
        le32(final(v)@, old(v)@.len() as int) == n,
{
    v.push((n % 256) as u8);
    v.push((n / 256 % 256) as u8);
    v.push((n / 65536 % 256) as u8);
    v.push((n / 16777216) as u8);
    assert(v@.take(old(v)@.len() as int) == old(v)@);
}

/// The numbers in a byte sequence are those that its bytes write to the base 256, the least
/// significant byte first.
pub proof fn numbers_are_written_to_the_base_256(s: Seq<u8>, i: int)
    ensures
        le16(s, i) == s[i] + 256 * s[i + 1],
        le32(s, i) == le16(s, i) + 65536 * le16(s, i + 2),
        le48(s, i) == le32(s, i) + 4294967296 * le16(s, i + 4),
        le64(s, i) == le48(s, i) + 281474976710656 * le16(s, i + 6),
{
}

} // verus!
