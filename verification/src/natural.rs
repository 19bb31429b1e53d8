//! Natural numbers of any size: sums and products that no machine word holds, exactly.
use vstd::prelude::*;

use crate::text::number::nearest;

verus! {

/// The base in which numbers are written.
pub const BASE: u64 = 0x1_0000_0000;

/// A power of the base.
spec fn power(n: nat) -> nat
    decreases n,
{
    if n == 0 {
        1
    } else {
        BASE as nat * power((n - 1) as nat)
    }
}

/// A digit, the lowest first; zero beyond the last.
spec fn digit(s: Seq<u32>, i: int) -> nat {
    if 0 <= i < s.len() {
        s[i] as nat
    } else {
        0
    }
}

/// What the lowest `n` digits stand for.
spec fn upto(s: Seq<u32>, n: nat) -> nat
    decreases n,
{
    if n == 0 {
        0
    } else {
        upto(s, (n - 1) as nat) + digit(s, n - 1) * power((n - 1) as nat)
    }
}

/// What digits stand for.
spec fn value(s: Seq<u32>) -> nat {
    upto(s, s.len())
}

proof fn upto_bound(s: Seq<u32>, n: nat)
    ensures
        upto(s, n) < power(n),
    decreases n,
{
    if n > 0 {
        upto_bound(s, (n - 1) as nat);
        let p = power((n - 1) as nat) as int;
        let d = digit(s, n - 1) as int;
        assert(d * p <= (BASE - 1) * p) by (nonlinear_arith)
            requires
                d <= BASE - 1,
                p >= 0,
        ;
        assert((BASE - 1) * p + p == BASE * p) by (nonlinear_arith);
    }
}

proof fn upto_same(s: Seq<u32>, t: Seq<u32>, n: nat)
    requires
        forall|i: int| 0 <= i < n ==> digit(s, i) == digit(t, i),
    ensures
        upto(s, n) == upto(t, n),
    decreases n,
{
    if n > 0 {
        upto_same(s, t, (n - 1) as nat);
        assert(digit(s, n - 1) == digit(t, n - 1));
    }
}

proof fn upto_beyond(s: Seq<u32>, n: nat)
    requires
        n >= s.len(),
    ensures
        upto(s, n) == value(s),
    decreases n,
{
    if n > s.len() {
        upto_beyond(s, (n - 1) as nat);
        assert(digit(s, n - 1) == 0);
        assert(0 * power((n - 1) as nat) == 0) by (nonlinear_arith);
    }
}

/// What a number with one more digit on top stands for.
proof fn push_adds_a_digit(s: Seq<u32>, d: u32)
    ensures
        value(s.push(d)) == value(s) + d * power(s.len()),
{
    let t = s.push(d);
    assert forall|i: int| 0 <= i < s.len() implies digit(s, i) == digit(t, i) by {}
    upto_same(s, t, s.len());
    assert(t.len() - 1 == s.len());
    assert(digit(t, s.len() as int) == d);
}

/// A natural number of any size.
#[derive(Debug)]
pub struct Natural {
    digits: Vec<u32>,
}

impl View for Natural {
    type V = nat;

    closed spec fn view(&self) -> nat {
        value(self.digits@)
    }
}

fn digit_at(v: &Vec<u32>, i: usize) -> (d: u64)
    ensures
        d == digit(v@, i as int),
        d < BASE,
{
    if i < v.len() {
        v[i] as u64
    } else {
        0
    }
}

impl Natural {
    pub fn from_u128(n: u128) -> (r: Self)
        ensures
            r@ == n,
    {
        let mut digits: Vec<u32> = Vec::new();
        let mut rest: u128 = n;
        assert(rest * power(0) == rest) by (nonlinear_arith)
            requires
                power(0) == 1,
        ;
        while rest > 0
            invariant
                n == value(digits@) + rest * power(digits@.len()),
            decreases rest,
        {
            let d: u32 = (rest % 0x1_0000_0000) as u32;
            let ghost s = digits@;
            let ghost p = power(s.len()) as int;
            digits.push(d);
            proof {
                push_adds_a_digit(s, d);
                let q = rest / 0x1_0000_0000;
                assert(rest == q * BASE + d);
                assert((q * BASE + d) * p == q * (BASE * p) + d * p) by (nonlinear_arith);
                assert(power(digits@.len()) == BASE * p);
            }
            rest = rest / 0x1_0000_0000;
        }
        assert(0 * power(digits@.len()) == 0) by (nonlinear_arith);
        Natural { digits }
    }

    pub fn plus(&self, other: &Natural) -> (r: Self)
        ensures
            r@ == self@ + other@,
    {
        let ghost a = self.digits@;
        let ghost b = other.digits@;
        let n: usize = if self.digits.len() > other.digits.len() {
            self.digits.len()
        } else {
            other.digits.len()
        };
        let mut digits: Vec<u32> = Vec::new();
        let mut carry: u64 = 0;
        assert(0 * power(0) == 0) by (nonlinear_arith);
        for i in 0..n
            invariant
                a == self.digits@,
                b == other.digits@,
                digits@.len() == i,
                carry <= 1,
                value(digits@) + carry * power(i as nat) == upto(a, i as nat) + upto(b, i as nat),
        {
            let sum: u64 = digit_at(&self.digits, i) + digit_at(&other.digits, i) + carry;
            let d: u32 = (sum % BASE) as u32;
            let up: u64 = sum / BASE;
            let ghost s = digits@;
            digits.push(d);
            proof {
                push_adds_a_digit(s, d);
                let p = power(i as nat) as int;
                let x = digit(a, i as int) as int;
                let y = digit(b, i as int) as int;
                assert(up * BASE + d == x + y + carry);
                assert(d * p + up * (BASE * p) == x * p + y * p + carry * p) by (nonlinear_arith)
                    requires
                        up * BASE + d == x + y + carry,
                ;
                assert(power((i + 1) as nat) == BASE * p);
            }
            carry = up;
        }
        proof {
            upto_beyond(a, n as nat);
            upto_beyond(b, n as nat);
            push_adds_a_digit(digits@, carry as u32);
        }
        digits.push(carry as u32);
        Natural { digits }
    }

    /// The product with a digit.
    fn scaled(&self, m: u32) -> (r: Self)
        ensures
            r@ == self@ * m,
    {
        let ghost a = self.digits@;
        let n: usize = self.digits.len();
        let mut digits: Vec<u32> = Vec::new();
        let mut carry: u64 = 0;
        assert(0 * power(0) == 0) by (nonlinear_arith);
        assert(0 * m == 0) by (nonlinear_arith);
        for i in 0..n
            invariant
                a == self.digits@,
                n == a.len(),
                digits@.len() == i,
                carry < BASE,
                value(digits@) + carry * power(i as nat) == upto(a, i as nat) * m,
        {
            let x: u64 = self.digits[i] as u64;
            assert(x * m + carry <= 0xFFFF_FFFF * 0xFFFF_FFFF + 0xFFFF_FFFF) by (nonlinear_arith)
                requires
                    x <= 0xFFFF_FFFF,
                    m <= 0xFFFF_FFFF,
                    carry <= 0xFFFF_FFFF,
            ;
            let sum: u64 = x * m as u64 + carry;
            let d: u32 = (sum % BASE) as u32;
            let up: u64 = sum / BASE;
            let ghost s = digits@;
            digits.push(d);
            proof {
                push_adds_a_digit(s, d);
                let p = power(i as nat) as int;
                let u = upto(a, i as nat) as int;
                assert(up * BASE + d == x * m + carry);
                assert(d * p + up * (BASE * p) == (x * p) * m + carry * p) by (nonlinear_arith)
                    requires
                        up * BASE + d == x * m + carry,
                ;
                assert((u + x * p) * m == u * m + (x * p) * m) by (nonlinear_arith);
                assert(power((i + 1) as nat) == BASE * p);
            }
            carry = up;
        }
        proof {
            push_adds_a_digit(digits@, carry as u32);
        }
        digits.push(carry as u32);
        Natural { digits }
    }

    /// The product with the base.
    fn shifted(&self) -> (r: Self)
        ensures
            r@ == self@ * BASE,
    {
        let ghost a = self.digits@;
        let mut digits: Vec<u32> = Vec::new();
        digits.push(0);
        proof {
            push_adds_a_digit(Seq::<u32>::empty(), 0u32);
            assert(digits@ =~= Seq::<u32>::empty().push(0u32));
            assert(0 * power(0) == 0) by (nonlinear_arith);
        }
        for i in 0..self.digits.len()
            invariant
                a == self.digits@,
                digits@.len() == i + 1,
                value(digits@) == upto(a, i as nat) * BASE,
        {
            let ghost s = digits@;
            let d: u32 = self.digits[i];
            digits.push(d);
            proof {
                push_adds_a_digit(s, d);
                let p = power(i as nat) as int;
                let u = upto(a, i as nat) as int;
                assert(power(s.len()) == BASE * p);
                assert((u + d * p) * BASE == u * BASE + d * (BASE * p)) by (nonlinear_arith);
            }
        }
        Natural { digits }
    }

    pub fn times(&self, other: &Natural) -> (r: Self)
        ensures
            r@ == self@ * other@,
    {
        let ghost b = other.digits@;
        let mut total = Natural { digits: Vec::new() };
        let mut moved = self.scaled(1);
        assert(self@ * power(0) == self@) by (nonlinear_arith)
            requires
                power(0) == 1,
        ;
        assert(self@ * 0 == 0) by (nonlinear_arith);
        assert(self@ * 1 == self@) by (nonlinear_arith);
        for i in 0..other.digits.len()
            invariant
                b == other.digits@,
                moved@ == self@ * power(i as nat),
                total@ == self@ * upto(b, i as nat),
        {
            let d: u32 = other.digits[i];
            total = total.plus(&moved.scaled(d));
            moved = moved.shifted();
            proof {
                let x = self@ as int;
                let p = power(i as nat) as int;
                let u = upto(b, i as nat) as int;
                assert(x * u + (x * p) * d == x * (u + d * p)) by (nonlinear_arith);
                assert((x * p) * BASE == x * (BASE * p)) by (nonlinear_arith);
                assert(power((i + 1) as nat) == BASE * p);
            }
        }
        total
    }

    /// Whether the number is no less than another.
    pub fn at_least(&self, other: &Natural) -> (r: bool)
        ensures
            r == (self@ >= other@),
    {
        let ghost a = self.digits@;
        let ghost b = other.digits@;
        let n: usize = if self.digits.len() > other.digits.len() {
            self.digits.len()
        } else {
            other.digits.len()
        };
        let mut r = true;
        for i in 0..n
            invariant
                a == self.digits@,
                b == other.digits@,
                r == (upto(a, i as nat) >= upto(b, i as nat)),
        {
            let x: u64 = digit_at(&self.digits, i);
            let y: u64 = digit_at(&other.digits, i);
            proof {
                upto_bound(a, i as nat);
                upto_bound(b, i as nat);
                let p = power(i as nat) as int;
                assert(x > y ==> x * p >= y * p + p) by (nonlinear_arith)
                    requires
                        p >= 0,
                ;
                assert(y > x ==> y * p >= x * p + p) by (nonlinear_arith)
                    requires
                        p >= 0,
                ;
            }
            if x != y {
                r = x > y;
            }
        }
        proof {
            upto_beyond(a, n as nat);
            upto_beyond(b, n as nat);
        }
        r
    }

    pub fn minus(&self, other: &Natural) -> (r: Self)
        requires
            self@ >= other@,
        ensures
            r@ == self@ - other@,
    {
        let ghost a = self.digits@;
        let ghost b = other.digits@;
        let n: usize = if self.digits.len() > other.digits.len() {
            self.digits.len()
        } else {
            other.digits.len()
        };
        let mut digits: Vec<u32> = Vec::new();
        let mut borrow: u64 = 0;
        assert(0 * power(0) == 0) by (nonlinear_arith);
        for i in 0..n
            invariant
                a == self.digits@,
                b == other.digits@,
                digits@.len() == i,
                borrow <= 1,
                value(digits@) + upto(b, i as nat) == upto(a, i as nat) + borrow * power(i as nat),
        {
            let x: u64 = digit_at(&self.digits, i);
            let y: u64 = digit_at(&other.digits, i) + borrow;
            let (d, next): (u32, u64) = if x >= y {
                ((x - y) as u32, 0)
            } else {
                ((BASE + x - y) as u32, 1)
            };
            let ghost s = digits@;
            digits.push(d);
            proof {
                push_adds_a_digit(s, d);
                let p = power(i as nat) as int;
                let z = digit(b, i as int) as int;
                assert(d + z + borrow == x + next * BASE);
                assert(d * p + z * p + borrow * p == x * p + next * (BASE * p)) by (nonlinear_arith)
                    requires
                        d + z + borrow == x + next * BASE,
                ;
                assert(power((i + 1) as nat) == BASE * p);
            }
            borrow = next;
        }
        proof {
            upto_beyond(a, n as nat);
            upto_beyond(b, n as nat);
            upto_bound(digits@, n as nat);
            let p = power(n as nat);
            assert(borrow * p == if borrow == 1 { p as int } else { 0 }) by (nonlinear_arith)
                requires
                    borrow <= 1,
            ;
        }
        Natural { digits }
    }

    /// The whole number nearest to the quotient of two numbers; of two that are equally near,
    /// the even one. The quotient is known to be less than `limit`.
    pub fn round_quotient(num: &Natural, den: &Natural, limit: u128) -> (r: u128)
        requires
            den@ > 0,
            num@ < limit * den@,
        ensures
            r == nearest(num@, den@),
            r <= limit,
    {
        let ghost n = num@ as int;
        let ghost d = den@ as int;
        let mut low: u128 = 0;
        let mut high: u128 = limit;
        assert(0 * d == 0) by (nonlinear_arith);
        assert(limit > 0) by {
            if limit == 0 {
                assert(limit * d == 0) by (nonlinear_arith)
                    requires
                        limit == 0,
                ;
            }
        }
        while high - low > 1
            invariant
                n == num@,
                d == den@,
                low < high <= limit,
                low * d <= n < high * d,
            decreases high - low,
        {
            let mid: u128 = low + (high - low) / 2;
            if num.at_least(&Natural::from_u128(mid).times(den)) {
                low = mid;
            } else {
                high = mid;
            }
        }
        let two = Natural::from_u128(2);
        let twice = num.times(&two);
        let middle = Natural::from_u128(low).times(&two).plus(&Natural::from_u128(1)).times(den);
        proof {
            let q = low as int;
            assert(high == q + 1);
            let r = n - q * d;
            assert((q + 1) * d == q * d + d) by (nonlinear_arith);
            assert(n == q * d + r && 0 <= r < d);
            vstd::arithmetic::div_mod::lemma_fundamental_div_mod_converse(n, d, q, r);
            assert((q * 2 + 1) * d == 2 * (q * d) + d) by (nonlinear_arith);
            assert(twice@ == 2 * n);
            assert(middle@ == 2 * (q * d) + d);
        }
        if !twice.at_least(&middle) {
            low
        } else if middle.at_least(&twice) && low % 2 == 0 {
            low
        } else {
            low + 1
        }
    }
}

} // verus!
