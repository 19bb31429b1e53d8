//! NUL-terminated UTF-16, the text encoding of the operating system's calls.
use vstd::prelude::*;

use crate::text::chars_of;

verus! {

/// `char::from_u32` gives the character with this code point, and nothing for a surrogate or
/// a number above U+10FFFF.
pub assume_specification[ char::from_u32 ](i: u32) -> (r: Option<char>)
    ensures
        r == if i < 0xD800 || 0xE000 <= i <= 0x10FFFF {
            Some(i as char)
        } else {
            None
        },
;

/// The first unit of a surrogate pair.
pub open spec fn high_surrogate(u: u16) -> bool {
    0xD800 <= u < 0xDC00
}

/// The second unit of a surrogate pair.
pub open spec fn low_surrogate(u: u16) -> bool {
    0xDC00 <= u < 0xE000
}

/// The character that a surrogate pair stands for.
pub open spec fn pair_char(high: u16, low: u16) -> char {
    (0x10000 + (high - 0xD800) * 0x400 + (low - 0xDC00)) as char
}

/// The text that UTF-16 units stand for; a surrogate without its partner becomes the
/// replacement character.
pub open spec fn utf16_text(units: Seq<u16>) -> Seq<char>
    decreases units.len(),
{
    if units.len() == 0 {
        seq![]
    } else if !high_surrogate(units[0]) && !low_surrogate(units[0]) {
        seq![units[0] as char] + utf16_text(units.drop_first())
    } else if high_surrogate(units[0]) && units.len() >= 2 && low_surrogate(units[1]) {
        seq![pair_char(units[0], units[1])] + utf16_text(units.skip(2))
    } else {
        seq!['\u{FFFD}'] + utf16_text(units.drop_first())
    }
}

/// The units of one character.
pub open spec fn char_units(c: char) -> Seq<u16> {
    if (c as u32) < 0x10000 {
        seq![(c as u32) as u16]
    } else {
        seq![
            (0xD800 + (c as u32 - 0x10000) / 0x400) as u16,
            (0xDC00 + (c as u32 - 0x10000) % 0x400) as u16,
        ]
    }
}

/// The UTF-16 units of a text.
pub open spec fn utf16_units(s: Seq<char>) -> Seq<u16>
    decreases s.len(),
{
    if s.len() == 0 {
        seq![]
    } else {
        char_units(s[0]) + utf16_units(s.drop_first())
    }
}

/// The part of a buffer before its first NUL; all of it where there is none.
pub open spec fn before_nul(buf: Seq<u16>) -> Seq<u16>
    decreases buf.len(),
{
    if buf.len() == 0 || buf[0] == 0 {
        seq![]
    } else {
        seq![buf[0]] + before_nul(buf.drop_first())
    }
}

/// Decode a NUL-terminated UTF-16 buffer, tolerating a missing terminator.
pub fn wide_to_string(buf: &[u16]) -> (s: String)
    ensures
        s@ == utf16_text(before_nul(buf@)),
{
    let mut end: usize = 0;
    assert(buf@.skip(0) == buf@);
    assert(buf@.take(0) + before_nul(buf@) == before_nul(buf@));
    while end < buf.len() && buf[end] != 0
        invariant
            end <= buf.len(),
            before_nul(buf@) == buf@.take(end as int) + before_nul(buf@.skip(end as int)),
        decreases buf.len() - end,
    {
        let ghost rest = buf@.skip(end as int);
        assert(rest.drop_first() == buf@.skip(end + 1));
        assert(buf@.take(end as int) + (seq![rest[0]] + before_nul(rest.drop_first()))
            == buf@.take(end + 1) + before_nul(buf@.skip(end + 1)));
        end += 1;
    }
    let ghost units = before_nul(buf@);
    assert(units == buf@.take(end as int));
    let mut s = String::new();
    let mut i: usize = 0;
    assert(units.skip(0) == units);
    assert(s@ + utf16_text(units) == utf16_text(units));
    while i < end
        invariant
            i <= end <= buf.len(),
            units == buf@.take(end as int),
            utf16_text(units) == s@ + utf16_text(units.skip(i as int)),
        decreases end - i,
    {
        let ghost rest = units.skip(i as int);
        let ghost before = s@;
        let a = buf[i];
        assert(rest[0] == a);
        if a < 0xD800 || a >= 0xE000 {
            let c = char::from_u32(a as u32);
            let c = c.unwrap();
            s.push(c);
            assert(rest.drop_first() == units.skip(i + 1));
            assert(before + (seq![c] + utf16_text(rest.drop_first())) == s@ + utf16_text(
                rest.drop_first(),
            ));
            i += 1;
        } else if a < 0xDC00 && end - i >= 2 && buf[i + 1] >= 0xDC00 && buf[i + 1] < 0xE000 {
            let b = buf[i + 1];
            assert(rest[1] == b);
            let code: u32 = 0x10000 + (a as u32 - 0xD800) * 0x400 + (b as u32 - 0xDC00);
            let c = char::from_u32(code).unwrap();
            s.push(c);
            assert(rest.skip(2) == units.skip(i + 2));
            assert(before + (seq![c] + utf16_text(rest.skip(2))) == s@ + utf16_text(rest.skip(2)));
            i += 2;
        } else {
            s.push('\u{FFFD}');
            assert(rest.drop_first() == units.skip(i + 1));
            assert(before + (seq!['\u{FFFD}'] + utf16_text(rest.drop_first())) == s@ + utf16_text(
                rest.drop_first(),
            ));
            i += 1;
        }
    }
    assert(s@ + utf16_text(units.skip(end as int)) == s@);
    s
}

/// Encode a text as a NUL-terminated UTF-16 vector.
pub fn to_wide(s: &str) -> (v: Vec<u16>)
    ensures
        v@ == utf16_units(s@).push(0),
{
    let chars = chars_of(s);
    let mut v: Vec<u16> = Vec::new();
    let mut i: usize = 0;
    assert(chars@.skip(0) == chars@);
    assert(v@ + utf16_units(chars@) == utf16_units(chars@));
    while i < chars.len()
        invariant
            i <= chars.len(),
            chars@ == s@,
            utf16_units(s@) == v@ + utf16_units(chars@.skip(i as int)),
        decreases chars.len() - i,
    {
        let ghost rest = chars@.skip(i as int);
        let ghost before = v@;
        proof {
            vstd::utf8::char_is_scalar(rest[0]);
        }
        let c = chars[i] as u32;
        if c < 0x10000 {
            v.push(c as u16);
        } else {
            v.push((0xD800 + (c - 0x10000) / 0x400) as u16);
            v.push((0xDC00 + (c - 0x10000) % 0x400) as u16);
        }
        assert(v@ == before + char_units(rest[0]));
        assert(rest.drop_first() == chars@.skip(i + 1));
        assert(before + (char_units(rest[0]) + utf16_units(rest.drop_first())) == v@ + utf16_units(
            rest.drop_first(),
        ));
        i += 1;
    }
    assert(v@ + utf16_units(chars@.skip(i as int)) == v@);
    v.push(0);
    v
}

/// The 16-bit units in a byte buffer, each least significant byte first; an odd last byte
/// does not count.
pub open spec fn units_of(bytes: Seq<u8>) -> Seq<u16> {
    Seq::new(bytes.len() / 2, |i: int| crate::bytes::le16(bytes, 2 * i))
}

/// The 16-bit units in a byte buffer.
pub fn read_units(bytes: &[u8]) -> (v: Vec<u16>)
    ensures
        v@ == units_of(bytes@),
{
    let n = bytes.len() / 2;
    let mut v: Vec<u16> = Vec::new();
    let mut i: usize = 0;
    while i < n
        invariant
            i <= n,
            n == bytes@.len() / 2,
            bytes@.len() <= usize::MAX,
            v@ == units_of(bytes@).take(i as int),
        decreases n - i,
    {
        v.push(crate::bytes::read_le16(bytes, 2 * i));
        i += 1;
        assert(v@ == units_of(bytes@).take(i as int));
    }
    assert(units_of(bytes@).take(n as int) == units_of(bytes@));
    v
}

// ---------------------------------------------------------------------------
// Laws
// ---------------------------------------------------------------------------

/// A text without a NUL comes back unchanged from its wide form.
pub proof fn wide_text_comes_back(s: Seq<char>)
    requires
        forall|i: int| 0 <= i < s.len() ==> s[i] != '\0',
    ensures
        utf16_text(before_nul(utf16_units(s).push(0))) == s,
    decreases s.len(),
{
    let wide = utf16_units(s).push(0);
    if s.len() == 0 {
        assert(wide[0] == 0);
    } else {
        let rest = s.drop_first();
        let tail = utf16_units(rest).push(0);
        wide_text_comes_back(rest);
        let units = char_units(s[0]);
        vstd::utf8::char_is_scalar(s[0]);
        vstd::utf8::char_u32_cast(s[0], s[0] as u32);
        assert(wide == units + tail);
        assert(s[0] != '\0');
        assert(s == seq![s[0]] + rest);
        if (s[0] as u32) < 0x10000 {
            let u = units[0];
            assert(u as u32 == s[0] as u32);
            assert(wide.drop_first() == tail);
            assert(before_nul(wide) == seq![u] + before_nul(tail));
            assert(before_nul(wide).drop_first() == before_nul(tail));
            assert(u as char == s[0]);
        } else {
            let h = units[0];
            let l = units[1];
            assert(high_surrogate(h) && low_surrogate(l));
            assert(wide.drop_first().drop_first() == tail);
            assert(wide.drop_first()[0] == l);
            assert(before_nul(wide.drop_first()) == seq![l] + before_nul(tail));
            assert(before_nul(wide) == seq![h] + (seq![l] + before_nul(tail)));
            assert(before_nul(wide).skip(2) == before_nul(tail));
            assert(pair_char(h, l) == s[0]);
        }
    }
}

/// What stands after the first NUL of a buffer does not matter.
pub proof fn decoding_stops_at_the_first_nul(head: Seq<u16>, garbage: Seq<u16>)
    ensures
        before_nul(head + seq![0u16] + garbage) == before_nul(head),
    decreases head.len(),
{
    let all = head + seq![0u16] + garbage;
    if head.len() == 0 {
        assert(all[0] == 0);
    } else if head[0] != 0 {
        assert(all.drop_first() == head.drop_first() + seq![0u16] + garbage);
        decoding_stops_at_the_first_nul(head.drop_first(), garbage);
    }
}

/// The units of a buffer before its first NUL are all there is before it: none of them is 0, and
/// the buffer ends behind them or goes on with a 0.
pub proof fn before_the_first_nul(buf: Seq<u16>)
    ensures
        ({
            let head = before_nul(buf);
            &&& head.len() <= buf.len()
            &&& forall|i: int| 0 <= i < head.len() ==> #[trigger] head[i] == buf[i] && buf[i] != 0
            &&& head.len() < buf.len() ==> buf[head.len() as int] == 0
        }),
    decreases buf.len(),
{
    if buf.len() > 0 && buf[0] != 0 {
        before_the_first_nul(buf.drop_first());
        let head = before_nul(buf);
        let rest = before_nul(buf.drop_first());
        assert forall|i: int| 0 <= i < head.len() implies #[trigger] head[i] == buf[i] && buf[i]
            != 0 by {
            if i > 0 {
                assert(head[i] == rest[i - 1]);
            }
        }
    }
}

/// Every two bytes are a unit, the less significant one first.
pub proof fn two_bytes_are_a_unit(bytes: Seq<u8>, i: int)
    ensures
        2 * units_of(bytes).len() <= bytes.len() <= 2 * units_of(bytes).len() + 1,
        0 <= i && 2 * i + 1 < bytes.len() ==> units_of(bytes)[i] == bytes[2 * i] + 256 * bytes[2 * i
            + 1],
{
}

/// A surrogate without its partner becomes the replacement character and takes nothing else with
/// it.
pub proof fn a_lone_surrogate_is_replaced(u: u16, rest: Seq<u16>)
    requires
        0xDC00 <= u < 0xE000 || 0xD800 <= u < 0xDC00 && (rest.len() == 0 || rest[0] < 0xDC00
            || rest[0] >= 0xE000),
    ensures
        utf16_text(seq![u] + rest) == seq!['\u{FFFD}'] + utf16_text(rest),
{
    assert((seq![u] + rest).drop_first() =~= rest);
    if rest.len() > 0 {
        assert((seq![u] + rest)[1] == rest[0]);
    }
}

} // verus!
