//! Numbers as text.
use vstd::prelude::*;

verus! {

/// The character of a decimal digit.
pub open spec fn digit(d: nat) -> char {
    (('0' as nat) + d) as char
}

/// A number in decimal notation, without leading zeros.
pub open spec fn dec(n: nat) -> Seq<char>
    decreases n,
{
    if n < 10 {
        seq![digit(n)]
    } else {
        dec(n / 10).push(digit(n % 10))
    }
}

/// Append a number in decimal notation.
pub fn push_dec(s: &mut String, n: u128)
    ensures
        final(s)@ == old(s)@ + dec(n as nat),
    decreases n,
{
    if n < 10 {
        let c: u8 = 48u8 + n as u8;
        s.push(c as char);
        assert(s@ == old(s)@ + dec(n as nat));
    } else {
        push_dec(s, n / 10);
        let c: u8 = 48u8 + (n % 10) as u8;
        s.push(c as char);
        assert(s@ == old(s)@ + dec(n as nat));
    }
}

/// The character of a hexadecimal digit, capital.
pub open spec fn hex_digit(d: nat) -> char {
    if d < 10 {
        digit(d)
    } else {
        (('A' as nat) + (d - 10)) as char
    }
}

/// A byte as two capital hexadecimal digits.
pub open spec fn hex2(b: u8) -> Seq<char> {
    seq![hex_digit((b / 16) as nat), hex_digit((b % 16) as nat)]
}

/// Append one hexadecimal digit.
fn push_hex_digit(s: &mut String, d: u8)
    requires
        d < 16,
    ensures
        final(s)@ == old(s)@.push(hex_digit(d as nat)),
{
    let c: u8 = if d < 10 { 48u8 + d } else { 55u8 + d };
    s.push(c as char);
}

/// Append a byte as two capital hexadecimal digits.
pub fn push_hex2(s: &mut String, b: u8)
    ensures
        final(s)@ == old(s)@ + hex2(b),
{
    push_hex_digit(s, b / 16);
    push_hex_digit(s, b % 16);
    assert(s@ == old(s)@ + hex2(b));
}

/// A number in decimal notation, with a minus sign where it is negative.
pub open spec fn signed(n: int) -> Seq<char> {
    if n < 0 {
        seq!['-'] + dec((-n) as nat)
    } else {
        dec(n as nat)
    }
}

/// Append a number in decimal notation, with a minus sign where it is negative.
pub fn push_signed(s: &mut String, n: i64)
    ensures
        final(s)@ == old(s)@ + signed(n as int),
{
    if n < 0 {
        s.push('-');
        let m: u128 = if n == i64::MIN { 9223372036854775808u128 } else { (-n) as u128 };
        push_dec(s, m);
        assert(s@ == old(s)@ + signed(n as int));
    } else {
        push_dec(s, n as u128);
    }
}

/// The whole number nearest to `num / den`; of two that are equally near, the even one.
pub open spec fn nearest(num: nat, den: nat) -> nat {
    let q = num / den;
    let r = num % den;
    if 2 * r < den || (2 * r == den && q % 2 == 0) {
        q
    } else {
        q + 1
    }
}

/// Rounding is to the nearest: no more than half a unit off, and of two whole numbers that are
/// equally near, the even one.
pub proof fn nearest_is_near(num: nat, den: nat)
    requires
        den > 0,
    ensures
        -(den as int) <= 2 * (nearest(num, den) * den - num) <= den,
        2 * (nearest(num, den) * den - num) == den || 2 * (nearest(num, den) * den - num) == -(
        den as int) ==> nearest(num, den) % 2 == 0,
{
    let q = num / den;
    let r = num % den;
    vstd::arithmetic::div_mod::lemma_fundamental_div_mod(num as int, den as int);
    assert(q * den == den * q) by (nonlinear_arith);
    assert((q + 1) * den == den * q + den) by (nonlinear_arith);
}

/// The whole number nearest to `num / den`; of two that are equally near, the even one.
pub fn round_ratio(num: u128, den: u128) -> (r: u128)
    requires
        0 < den <= 0x8000_0000_0000_0000_0000_0000_0000_0000,
        num < u128::MAX,
    ensures
        r == nearest(num as nat, den as nat),
{
    let q = num / den;
    let r = num % den;
    assert(q <= num) by (nonlinear_arith)
        requires
            q == num / den,
            den > 0,
    ;
    if 2 * r < den || (2 * r == den && q % 2 == 0) {
        q
    } else {
        q + 1
    }
}

/// A number of tenths, with one decimal.
pub open spec fn tenths(t: nat) -> Seq<char> {
    dec(t / 10) + "."@ + dec(t % 10)
}

/// Append a number of tenths, with one decimal.
pub fn push_tenths(s: &mut String, t: u128)
    ensures
        final(s)@ == old(s)@ + tenths(t as nat),
{
    push_dec(s, t / 10);
    s.append(".");
    push_dec(s, t % 10);
    assert(s@ == old(s)@ + tenths(t as nat));
}

/// A number in decimal notation, with zeros in front up to a width.
pub open spec fn padded(n: nat, width: nat) -> Seq<char> {
    let d = dec(n);
    if d.len() >= width {
        d
    } else {
        Seq::new((width - d.len()) as nat, |i: int| '0') + d
    }
}

proof fn dec_len(n: nat)
    ensures
        dec(n).len() >= 1,
        n < 10 <==> dec(n).len() == 1,
        n < 100 ==> dec(n).len() <= 2,
        10 <= n < 100 ==> dec(n).len() == 2,
        100 <= n < 1000 ==> dec(n).len() == 3,
        1000 <= n < 10000 ==> dec(n).len() == 4,
        n >= 10000 ==> dec(n).len() >= 5,
    decreases n,
{
    if n >= 10 {
        dec_len(n / 10);
    }
}

/// Append a number with zeros in front up to two digits.
pub fn push_padded2(s: &mut String, n: u128)
    ensures
        final(s)@ == old(s)@ + padded(n as nat, 2),
{
    proof {
        dec_len(n as nat);
    }
    if n < 10 {
        s.push('0');
    }
    push_dec(s, n);
    assert(s@ == old(s)@ + padded(n as nat, 2));
}

/// Append a number with zeros in front up to four digits.
pub fn push_padded4(s: &mut String, n: u128)
    ensures
        final(s)@ == old(s)@ + padded(n as nat, 4),
{
    proof {
        dec_len(n as nat);
    }
    if n < 1000 {
        s.push('0');
        if n < 100 {
            s.push('0');
            if n < 10 {
                s.push('0');
            }
        }
    }
    push_dec(s, n);
    assert(s@ == old(s)@ + padded(n as nat, 4));
}

/// A number of tenths, with one decimal and a minus sign where it is negative.
pub open spec fn signed_tenths(t: int) -> Seq<char> {
    if t < 0 {
        seq!['-'] + tenths((-t) as nat)
    } else {
        tenths(t as nat)
    }
}

/// Append a number of tenths, with one decimal and a minus sign where it is negative.
pub fn push_signed_tenths(s: &mut String, t: i64)
    requires
        t > i64::MIN,
    ensures
        final(s)@ == old(s)@ + signed_tenths(t as int),
{
    if t < 0 {
        s.push('-');
        push_tenths(s, (-t) as u128);
        assert(s@ == old(s)@ + signed_tenths(t as int));
    } else {
        push_tenths(s, t as u128);
    }
}

/// The whole number nearest to `num / den`, with the sign of `num`.
pub open spec fn signed_nearest(num: int, den: nat) -> int {
    if num < 0 {
        -(nearest((-num) as nat, den) as int)
    } else {
        nearest(num as nat, den) as int
    }
}

/// The character is a decimal digit.
pub open spec fn is_digit(c: char) -> bool {
    '0' <= c <= '9'
}

/// Every character of the text is a decimal digit.
pub open spec fn all_digits(s: Seq<char>) -> bool {
    forall|i: int| 0 <= i < s.len() ==> is_digit(#[trigger] s[i])
}

/// The number that a sequence of decimal digits stands for.
pub open spec fn digits_value(s: Seq<char>) -> nat
    decreases s.len(),
{
    if s.len() == 0 {
        0
    } else {
        10 * digits_value(s.drop_last()) + ((s.last() as u32) - ('0' as u32)) as nat
    }
}

/// The number that a text stands for: decimal digits, a plus sign before them allowed, and
/// no more than a `u64` holds.
pub open spec fn number_of(s: Seq<char>) -> Option<u64> {
    let d = if s.len() > 0 && s[0] == '+' {
        s.drop_first()
    } else {
        s
    };
    if d.len() > 0 && all_digits(d) && digits_value(d) <= u64::MAX {
        Some(digits_value(d) as u64)
    } else {
        None
    }
}

proof fn digits_value_grows(s: Seq<char>, n: int)
    requires
        0 <= n <= s.len(),
        all_digits(s),
    ensures
        digits_value(s.take(n)) <= digits_value(s),
    decreases s.len() - n,
{
    if n < s.len() {
        assert(s.take(n + 1).drop_last() == s.take(n));
        assert(is_digit(s[n]));
        digits_value_grows(s, n + 1);
    } else {
        assert(s.take(n) == s);
    }
}

/// Read a number in decimal notation.
pub fn parse_u64(s: &str) -> (r: Option<u64>)
    ensures
        r == number_of(s@),
{
    let v = crate::text::chars_of(s);
    let start: usize = if v.len() > 0 && v[0] == '+' { 1 } else { 0 };
    let ghost d = v@.skip(start as int);
    assert(d == if s@.len() > 0 && s@[0] == '+' {
        s@.drop_first()
    } else {
        s@
    });
    if v.len() == start {
        return None;
    }
    let mut value: u64 = 0;
    let mut i: usize = start;
    assert(d.take(0) =~= Seq::<char>::empty());
    while i < v.len()
        invariant
            start <= i <= v.len(),
            d == v@.skip(start as int),
            d == (if s@.len() > 0 && s@[0] == '+' {
                s@.drop_first()
            } else {
                s@
            }),
            forall|j: int| 0 <= j < i - start ==> is_digit(#[trigger] d[j]),
            value == digits_value(d.take(i - start)),
        decreases v.len() - i,
    {
        let c = v[i];
        assert(d[i - start] == c);
        if !('0' <= c && c <= '9') {
            assert(!is_digit(d[i - start]));
            return None;
        }
        let k: u64 = (c as u32 - 48) as u64;
        let ghost more = d.take(i - start + 1);
        assert(more.drop_last() == d.take(i - start));
        assert(more.last() == c);
        if value > (u64::MAX - k) / 10 {
            assert(digits_value(more) > u64::MAX);
            proof {
                if all_digits(d) {
                    digits_value_grows(d, i - start + 1);
                }
            }
            return None;
        }
        value = value * 10 + k;
        i += 1;
    }
    assert(d.take(i - start) == d);
    Some(value)
}

/// A number's decimal notation stands for that number, in digits and without leading zeros. So
/// two numbers have the same notation only where they are the same.
pub proof fn notation_stands_for_the_number(n: nat)
    ensures
        dec(n).len() > 0,
        all_digits(dec(n)),
        digits_value(dec(n)) == n,
        n > 0 ==> dec(n)[0] != '0',
    decreases n,
{
    if n < 10 {
        assert(dec(n).drop_last() =~= Seq::<char>::empty());
        assert(digits_value(dec(n).drop_last()) == 0);
    } else {
        notation_stands_for_the_number(n / 10);
        assert(dec(n).drop_last() =~= dec(n / 10));
        assert forall|i: int| 0 <= i < dec(n).len() implies is_digit(#[trigger] dec(n)[i]) by {
            if i < dec(n / 10).len() {
                assert(dec(n)[i] == dec(n / 10)[i]);
            }
        }
    }
}

/// Reading a number gives back what was written, with or without a plus sign.
pub proof fn a_written_number_reads_back(n: u64)
    ensures
        number_of(dec(n as nat)) == Some(n),
        number_of(seq!['+'] + dec(n as nat)) == Some(n),
{
    notation_stands_for_the_number(n as nat);
    let d = dec(n as nat);
    assert(is_digit(d[0]));
    assert((seq!['+'] + d).drop_first() =~= d);
}

/// Adding a digit to a text of digits multiplies its number by ten and adds the digit, and a text
/// with any other character (but a plus sign in front), or with no digit at all, is no number.
pub proof fn digits_read_as_a_number(s: Seq<char>, c: char)
    ensures
        s.len() > 0 && all_digits(s) && '0' <= c <= '9' ==> match number_of(s) {
            Some(n) => number_of(s.push(c)) == if 10 * n + (c as u32 - '0' as u32) <= u64::MAX {
                Some((10 * n + (c as u32 - '0' as u32)) as u64)
            } else {
                None
            },
            None => number_of(s.push(c)) is None,
        },
        s.len() == 0 ==> number_of(s) is None,
        (exists|i: int|
            0 <= i < s.len() && !('0' <= #[trigger] s[i] <= '9') && !(i == 0 && s[i] == '+'))
            ==> number_of(s) is None,
        s.len() == 1 && s[0] == '+' ==> number_of(s) is None,
{
    if s.len() > 0 && all_digits(s) && '0' <= c <= '9' {
        let t = s.push(c);
        assert(is_digit(s[0]));
        assert(t[0] == s[0]);
        assert(t.drop_last() =~= s);
        assert forall|i: int| 0 <= i < t.len() implies is_digit(#[trigger] t[i]) by {
            if i < s.len() {
                assert(t[i] == s[i]);
            }
        }
        assert(digits_value(t) == 10 * digits_value(s) + (c as u32 - '0' as u32));
    }
    if exists|i: int|
        0 <= i < s.len() && !('0' <= #[trigger] s[i] <= '9') && !(i == 0 && s[i] == '+') {
        let i = choose|i: int|
            0 <= i < s.len() && !('0' <= #[trigger] s[i] <= '9') && !(i == 0 && s[i] == '+');
        if s[0] == '+' {
            assert(s.drop_first()[i - 1] == s[i]);
            assert(!is_digit(s.drop_first()[i - 1]));
        } else {
            assert(!is_digit(s[i]));
        }
    }
}

/// A negative number is its opposite with a minus sign in front, and rounds as its opposite does.
pub proof fn the_sign_stands_in_front(n: nat, den: nat)
    ensures
        signed(n as int) == dec(n),
        n > 0 ==> signed(-(n as int)) == seq!['-'] + dec(n),
        signed_tenths(n as int) == tenths(n),
        n > 0 ==> signed_tenths(-(n as int)) == seq!['-'] + signed_tenths(n as int),
        n > 0 ==> signed_nearest(-(n as int), den) == -signed_nearest(n as int, den),
        signed_nearest(n as int, den) == nearest(n, den),
{
}

/// The value of a capital hexadecimal digit; nothing where the character is none.
pub open spec fn hex_value(c: char) -> Option<int> {
    if '0' <= c <= '9' {
        Some(c as u32 - '0' as u32)
    } else if 'A' <= c <= 'F' {
        Some(c as u32 - 'A' as u32 + 10)
    } else {
        None
    }
}

/// The two hexadecimal digits of a byte stand for it.
pub proof fn hex_digits_stand_for_the_byte(b: u8)
    ensures
        hex2(b).len() == 2,
        hex_value(hex2(b)[0]) matches Some(high) && hex_value(hex2(b)[1]) matches Some(low) && 16
            * high + low == b,
{
}

/// A text of tenths is the whole number, a point, and one digit more: without the point it is the
/// number of tenths.
pub proof fn tenths_have_one_decimal(t: nat)
    ensures
        ({
            let s = tenths(t);
            let n = s.len() - 2;
            &&& n >= 1
            &&& s[n] == '.'
            &&& all_digits(s.take(n))
            &&& is_digit(s[n + 1])
            &&& digits_value(s.take(n).push(s[n + 1])) == t
        }),
{
    reveal_strlit(".");
    notation_stands_for_the_number(t / 10);
    notation_stands_for_the_number(t % 10);
    dec_len(t % 10);
    let s = tenths(t);
    let n = s.len() - 2;
    assert(s.take(n) =~= dec(t / 10));
    let both = s.take(n).push(s[n + 1]);
    assert(both.drop_last() =~= dec(t / 10));
    let last = dec(t % 10);
    assert(s[n + 1] == last[0]);
    assert(is_digit(last[0]));
    assert(last.drop_last() =~= Seq::<char>::empty());
    assert(digits_value(last.drop_last()) == 0);
}

/// A padded number is at least as long as asked for, stands for the same number, and is no longer
/// than it has to be.
pub proof fn padding_keeps_the_number(n: nat, width: nat)
    ensures
        padded(n, width).len() >= width,
        all_digits(padded(n, width)),
        digits_value(padded(n, width)) == n,
        padded(n, width).len() > width ==> padded(n, width) == dec(n),
        n < 100 && width == 2 ==> padded(n, width).len() == 2,
        n < 10000 && width == 4 ==> padded(n, width).len() == 4,
{
    notation_stands_for_the_number(n);
    dec_len(n);
    let d = dec(n);
    if d.len() < width {
        let k = (width - d.len()) as nat;
        zeros_in_front(d, k);
    }
}

proof fn zeros_in_front(d: Seq<char>, k: nat)
    requires
        all_digits(d),
    ensures
        all_digits(Seq::new(k, |i: int| '0') + d),
        digits_value(Seq::new(k, |i: int| '0') + d) == digits_value(d),
    decreases d.len(), k,
{
    let zeros = Seq::new(k, |i: int| '0');
    let all = zeros + d;
    assert forall|i: int| 0 <= i < all.len() implies is_digit(#[trigger] all[i]) by {
        if i >= k {
            assert(all[i] == d[i - k]);
        }
    }
    if d.len() > 0 {
        assert forall|i: int| 0 <= i < d.drop_last().len() implies is_digit(
            #[trigger] d.drop_last()[i],
        ) by {
            assert(d.drop_last()[i] == d[i]);
        }
        zeros_in_front(d.drop_last(), k);
        assert(all.drop_last() =~= zeros + d.drop_last());
        assert(all.last() == d.last());
    } else if k > 0 {
        zeros_in_front(d, (k - 1) as nat);
        assert(all.drop_last() =~= Seq::new((k - 1) as nat, |i: int| '0') + d);
        assert(all.last() == '0');
    }
}

} // verus!
