//! Unsigned 512-bit integers, the type of token amounts.
//!
//! A number is held as eight 64-bit limbs, least significant first. Every
//! operation is stated over the natural number that the limbs stand for.

use vstd::prelude::*;

verus! {

/// The weight of one limb, 2^64.
pub const LIMB_BASE: u128 = 0x1_0000_0000_0000_0000;

/// 2^512, one more than the largest value.
pub open spec fn u512_modulus() -> nat {
    0x1_0000_0000_0000_0000_0000_0000_0000_0000_0000_0000_0000_0000_0000_0000_0000_0000_0000_0000_0000_0000_0000_0000_0000_0000_0000_0000_0000_0000_0000_0000_0000_0000nat
}

/// The number that eight limbs stand for, least significant limb first.
pub open spec fn limbs_value(
    l0: int,
    l1: int,
    l2: int,
    l3: int,
    l4: int,
    l5: int,
    l6: int,
    l7: int,
) -> int {
    l0 + l1 * 0x1_0000_0000_0000_0000 + l2 * 0x1_0000_0000_0000_0000_0000_0000_0000_0000int + l3
        * 0x1_0000_0000_0000_0000_0000_0000_0000_0000_0000_0000_0000_0000int + l4
        * 0x1_0000_0000_0000_0000_0000_0000_0000_0000_0000_0000_0000_0000_0000_0000_0000_0000int + l5
        * 0x1_0000_0000_0000_0000_0000_0000_0000_0000_0000_0000_0000_0000_0000_0000_0000_0000_0000_0000_0000_0000int
        + l6
        * 0x1_0000_0000_0000_0000_0000_0000_0000_0000_0000_0000_0000_0000_0000_0000_0000_0000_0000_0000_0000_0000_0000_0000_0000_0000int
        + l7
        * 0x1_0000_0000_0000_0000_0000_0000_0000_0000_0000_0000_0000_0000_0000_0000_0000_0000_0000_0000_0000_0000_0000_0000_0000_0000_0000_0000_0000_0000int
}

/// An unsigned integer below 2^512.
#[derive(Clone, Copy, Debug, PartialEq, Eq, Structural)]
pub struct U512 {
    l0: u64,
    l1: u64,
    l2: u64,
    l3: u64,
    l4: u64,
    l5: u64,
    l6: u64,
    l7: u64,
}

/// Adds two limbs and a carry bit; gives the low limb and the carry out.
fn add_limb(a: u64, b: u64, carry: u64) -> (r: (u64, u64))
    requires
        carry <= 1,
    ensures
        r.1 <= 1,
        r.0 + r.1 * 0x1_0000_0000_0000_0000int == a + b + carry,
{
    let s: u128 = a as u128 + b as u128 + carry as u128;
    ((s % LIMB_BASE) as u64, (s / LIMB_BASE) as u64)
}

/// Subtracts a limb and a borrow bit from a limb; gives the low limb and the
/// borrow out.
fn sub_limb(a: u64, b: u64, borrow: u64) -> (r: (u64, u64))
    requires
        borrow <= 1,
    ensures
        r.1 <= 1,
        r.0 - r.1 * 0x1_0000_0000_0000_0000int == a - b - borrow,
{
    let take: u128 = b as u128 + borrow as u128;
    if a as u128 >= take {
        ((a as u128 - take) as u64, 0)
    } else {
        ((a as u128 + LIMB_BASE - take) as u64, 1)
    }
}

/// Multiplies a limb by a factor and adds a carry limb; gives the low limb
/// and the carry out.
fn mul_limb(a: u64, factor: u64, carry: u64) -> (r: (u64, u64))
    ensures
        r.0 + r.1 * 0x1_0000_0000_0000_0000int == a * factor + carry,
{
    assert(a * factor <= 0xffff_ffff_ffff_ffff * 0xffff_ffff_ffff_ffff) by (nonlinear_arith)
        requires
            0 <= a <= 0xffff_ffff_ffff_ffff,
            0 <= factor <= 0xffff_ffff_ffff_ffff,
    ;
    let p: u128 = a as u128 * factor as u128 + carry as u128;
    ((p % LIMB_BASE) as u64, (p / LIMB_BASE) as u64)
}

/// Divides the two-limb number `rem * 2^64 + limb` by a divisor above `rem`;
/// gives the quotient limb and the remainder.
fn div_limb(rem: u64, limb: u64, divisor: u64) -> (r: (u64, u64))
    requires
        rem < divisor,
    ensures
        r.1 < divisor,
        r.0 * divisor + r.1 == rem * 0x1_0000_0000_0000_0000int + limb,
{
    let cur: u128 = rem as u128 * LIMB_BASE + limb as u128;
    let q: u128 = cur / (divisor as u128);
    let r: u128 = cur % (divisor as u128);
    proof {
        vstd::arithmetic::div_mod::lemma_fundamental_div_mod(cur as int, divisor as int);
        assert(q < 0x1_0000_0000_0000_0000) by (nonlinear_arith)
            requires
                cur == divisor * q + r,
                0 <= r,
                0 <= q,
                0 < divisor,
                cur < divisor * 0x1_0000_0000_0000_0000,
        ;
        assert(q * divisor == divisor * q) by (nonlinear_arith);
    }
    (q as u64, r as u64)
}

/// Scaling every limb scales the number.
proof fn lemma_limbs_value_scaled(
    l0: int,
    l1: int,
    l2: int,
    l3: int,
    l4: int,
    l5: int,
    l6: int,
    l7: int,
    f: int,
)
    ensures
        limbs_value(l0, l1, l2, l3, l4, l5, l6, l7) * f == limbs_value(
            l0 * f,
            l1 * f,
            l2 * f,
            l3 * f,
            l4 * f,
            l5 * f,
            l6 * f,
            l7 * f,
        ),
{
    assert(limbs_value(l0, l1, l2, l3, l4, l5, l6, l7) * f == limbs_value(
        l0 * f,
        l1 * f,
        l2 * f,
        l3 * f,
        l4 * f,
        l5 * f,
        l6 * f,
        l7 * f,
    )) by (nonlinear_arith);
}

/// Eight limb steps that each pass a carry upward add up to one step on the
/// whole numbers: `x` are the limbs that go in, `r` the limbs that come out,
/// `c0` the carry in and `c8` the carry out.
proof fn lemma_carry_chain(
    x0: int,
    x1: int,
    x2: int,
    x3: int,
    x4: int,
    x5: int,
    x6: int,
    x7: int,
    r0: int,
    r1: int,
    r2: int,
    r3: int,
    r4: int,
    r5: int,
    r6: int,
    r7: int,
    c0: int,
    c1: int,
    c2: int,
    c3: int,
    c4: int,
    c5: int,
    c6: int,
    c7: int,
    c8: int,
)
    requires
        r0 + c1 * 0x1_0000_0000_0000_0000int == x0 + c0,
        r1 + c2 * 0x1_0000_0000_0000_0000int == x1 + c1,
        r2 + c3 * 0x1_0000_0000_0000_0000int == x2 + c2,
        r3 + c4 * 0x1_0000_0000_0000_0000int == x3 + c3,
        r4 + c5 * 0x1_0000_0000_0000_0000int == x4 + c4,
        r5 + c6 * 0x1_0000_0000_0000_0000int == x5 + c5,
        r6 + c7 * 0x1_0000_0000_0000_0000int == x6 + c6,
        r7 + c8 * 0x1_0000_0000_0000_0000int == x7 + c7,
    ensures
        limbs_value(r0, r1, r2, r3, r4, r5, r6, r7) + c8
            * 0x1_0000_0000_0000_0000_0000_0000_0000_0000_0000_0000_0000_0000_0000_0000_0000_0000_0000_0000_0000_0000_0000_0000_0000_0000_0000_0000_0000_0000_0000_0000_0000_0000int
            == limbs_value(x0, x1, x2, x3, x4, x5, x6, x7) + c0,
{
    let got0 = r0;
    let fed0 = x0;
    let got1 = got0 + r1 * 0x1_0000_0000_0000_0000int;
    let fed1 = fed0 + x1 * 0x1_0000_0000_0000_0000int;
    assert(got1 + c2 * 0x1_0000_0000_0000_0000_0000_0000_0000_0000int == fed1 + c0);
    let got2 = got1 + r2 * 0x1_0000_0000_0000_0000_0000_0000_0000_0000int;
    let fed2 = fed1 + x2 * 0x1_0000_0000_0000_0000_0000_0000_0000_0000int;
    assert(got2 + c3 * 0x1_0000_0000_0000_0000_0000_0000_0000_0000_0000_0000_0000_0000int == fed2 + c0);
    let got3 = got2 + r3 * 0x1_0000_0000_0000_0000_0000_0000_0000_0000_0000_0000_0000_0000int;
    let fed3 = fed2 + x3 * 0x1_0000_0000_0000_0000_0000_0000_0000_0000_0000_0000_0000_0000int;
    assert(got3 + c4 * 0x1_0000_0000_0000_0000_0000_0000_0000_0000_0000_0000_0000_0000_0000_0000_0000_0000int == fed3 + c0);
    let got4 = got3 + r4 * 0x1_0000_0000_0000_0000_0000_0000_0000_0000_0000_0000_0000_0000_0000_0000_0000_0000int;
    let fed4 = fed3 + x4 * 0x1_0000_0000_0000_0000_0000_0000_0000_0000_0000_0000_0000_0000_0000_0000_0000_0000int;
    assert(got4 + c5 * 0x1_0000_0000_0000_0000_0000_0000_0000_0000_0000_0000_0000_0000_0000_0000_0000_0000_0000_0000_0000_0000int == fed4 + c0);
    let got5 = got4 + r5 * 0x1_0000_0000_0000_0000_0000_0000_0000_0000_0000_0000_0000_0000_0000_0000_0000_0000_0000_0000_0000_0000int;
    let fed5 = fed4 + x5 * 0x1_0000_0000_0000_0000_0000_0000_0000_0000_0000_0000_0000_0000_0000_0000_0000_0000_0000_0000_0000_0000int;
    assert(got5 + c6 * 0x1_0000_0000_0000_0000_0000_0000_0000_0000_0000_0000_0000_0000_0000_0000_0000_0000_0000_0000_0000_0000_0000_0000_0000_0000int == fed5 + c0);
    let got6 = got5 + r6 * 0x1_0000_0000_0000_0000_0000_0000_0000_0000_0000_0000_0000_0000_0000_0000_0000_0000_0000_0000_0000_0000_0000_0000_0000_0000int;
    let fed6 = fed5 + x6 * 0x1_0000_0000_0000_0000_0000_0000_0000_0000_0000_0000_0000_0000_0000_0000_0000_0000_0000_0000_0000_0000_0000_0000_0000_0000int;
    assert(got6 + c7 * 0x1_0000_0000_0000_0000_0000_0000_0000_0000_0000_0000_0000_0000_0000_0000_0000_0000_0000_0000_0000_0000_0000_0000_0000_0000_0000_0000_0000_0000int == fed6 + c0);
    let got7 = got6 + r7 * 0x1_0000_0000_0000_0000_0000_0000_0000_0000_0000_0000_0000_0000_0000_0000_0000_0000_0000_0000_0000_0000_0000_0000_0000_0000_0000_0000_0000_0000int;
    let fed7 = fed6 + x7 * 0x1_0000_0000_0000_0000_0000_0000_0000_0000_0000_0000_0000_0000_0000_0000_0000_0000_0000_0000_0000_0000_0000_0000_0000_0000_0000_0000_0000_0000int;
    assert(got7 + c8 * 0x1_0000_0000_0000_0000_0000_0000_0000_0000_0000_0000_0000_0000_0000_0000_0000_0000_0000_0000_0000_0000_0000_0000_0000_0000_0000_0000_0000_0000_0000_0000_0000_0000int == fed7 + c0);
}

impl U512 {
    /// The number that the limbs stand for.
    pub closed spec fn value(self) -> nat {
        limbs_value(
            self.l0 as int,
            self.l1 as int,
            self.l2 as int,
            self.l3 as int,
            self.l4 as int,
            self.l5 as int,
            self.l6 as int,
            self.l7 as int,
        ) as nat
    }

    /// Every value lies below 2^512.
    pub proof fn lemma_value_bound(self)
        ensures
            self.value() < u512_modulus(),
    {
    }

    /// Two numbers with the same value are the same number.
    pub proof fn lemma_value_injective(self, other: U512)
        requires
            self.value() == other.value(),
        ensures
            self == other,
    {
        if !self.spec_lex_lt(other) && !other.spec_lex_lt(self) {
        } else if self.spec_lex_lt(other) {
            self.lemma_lex_lt(other);
        } else {
            other.lemma_lex_lt(self);
        }
    }

    /// Whether this number comes before the other when the limbs are compared
    /// from the most significant one down.
    pub closed spec fn spec_lex_lt(self, other: U512) -> bool {
        if self.l7 != other.l7 {
            self.l7 < other.l7
        } else if self.l6 != other.l6 {
            self.l6 < other.l6
        } else if self.l5 != other.l5 {
            self.l5 < other.l5
        } else if self.l4 != other.l4 {
            self.l4 < other.l4
        } else if self.l3 != other.l3 {
            self.l3 < other.l3
        } else if self.l2 != other.l2 {
            self.l2 < other.l2
        } else if self.l1 != other.l1 {
            self.l1 < other.l1
        } else {
            self.l0 < other.l0
        }
    }

    /// Comparing limb by limb from the top compares the values.
    pub proof fn lemma_lex_lt(self, other: U512)
        ensures
            self.spec_lex_lt(other) == (self.value() < other.value()),
    {
        let s0 = self.l0 as int;
        let o0 = other.l0 as int;
        let s1 = s0 + self.l1 * 0x1_0000_0000_0000_0000int;
        let o1 = o0 + other.l1 * 0x1_0000_0000_0000_0000int;
        assert(0 <= s1 < 0x1_0000_0000_0000_0000_0000_0000_0000_0000int && 0 <= o1 < 0x1_0000_0000_0000_0000_0000_0000_0000_0000int);
        let s2 = s1 + self.l2 * 0x1_0000_0000_0000_0000_0000_0000_0000_0000int;
        let o2 = o1 + other.l2 * 0x1_0000_0000_0000_0000_0000_0000_0000_0000int;
        assert(0 <= s2 < 0x1_0000_0000_0000_0000_0000_0000_0000_0000_0000_0000_0000_0000int && 0 <= o2 < 0x1_0000_0000_0000_0000_0000_0000_0000_0000_0000_0000_0000_0000int);
        let s3 = s2 + self.l3 * 0x1_0000_0000_0000_0000_0000_0000_0000_0000_0000_0000_0000_0000int;
        let o3 = o2 + other.l3 * 0x1_0000_0000_0000_0000_0000_0000_0000_0000_0000_0000_0000_0000int;
        assert(0 <= s3 < 0x1_0000_0000_0000_0000_0000_0000_0000_0000_0000_0000_0000_0000_0000_0000_0000_0000int && 0 <= o3 < 0x1_0000_0000_0000_0000_0000_0000_0000_0000_0000_0000_0000_0000_0000_0000_0000_0000int);
        let s4 = s3 + self.l4 * 0x1_0000_0000_0000_0000_0000_0000_0000_0000_0000_0000_0000_0000_0000_0000_0000_0000int;
        let o4 = o3 + other.l4 * 0x1_0000_0000_0000_0000_0000_0000_0000_0000_0000_0000_0000_0000_0000_0000_0000_0000int;
        assert(0 <= s4 < 0x1_0000_0000_0000_0000_0000_0000_0000_0000_0000_0000_0000_0000_0000_0000_0000_0000_0000_0000_0000_0000int && 0 <= o4 < 0x1_0000_0000_0000_0000_0000_0000_0000_0000_0000_0000_0000_0000_0000_0000_0000_0000_0000_0000_0000_0000int);
        let s5 = s4 + self.l5 * 0x1_0000_0000_0000_0000_0000_0000_0000_0000_0000_0000_0000_0000_0000_0000_0000_0000_0000_0000_0000_0000int;
        let o5 = o4 + other.l5 * 0x1_0000_0000_0000_0000_0000_0000_0000_0000_0000_0000_0000_0000_0000_0000_0000_0000_0000_0000_0000_0000int;
        assert(0 <= s5 < 0x1_0000_0000_0000_0000_0000_0000_0000_0000_0000_0000_0000_0000_0000_0000_0000_0000_0000_0000_0000_0000_0000_0000_0000_0000int && 0 <= o5 < 0x1_0000_0000_0000_0000_0000_0000_0000_0000_0000_0000_0000_0000_0000_0000_0000_0000_0000_0000_0000_0000_0000_0000_0000_0000int);
        let s6 = s5 + self.l6 * 0x1_0000_0000_0000_0000_0000_0000_0000_0000_0000_0000_0000_0000_0000_0000_0000_0000_0000_0000_0000_0000_0000_0000_0000_0000int;
        let o6 = o5 + other.l6 * 0x1_0000_0000_0000_0000_0000_0000_0000_0000_0000_0000_0000_0000_0000_0000_0000_0000_0000_0000_0000_0000_0000_0000_0000_0000int;
        assert(0 <= s6 < 0x1_0000_0000_0000_0000_0000_0000_0000_0000_0000_0000_0000_0000_0000_0000_0000_0000_0000_0000_0000_0000_0000_0000_0000_0000_0000_0000_0000_0000int && 0 <= o6 < 0x1_0000_0000_0000_0000_0000_0000_0000_0000_0000_0000_0000_0000_0000_0000_0000_0000_0000_0000_0000_0000_0000_0000_0000_0000_0000_0000_0000_0000int);
        let s7 = s6 + self.l7 * 0x1_0000_0000_0000_0000_0000_0000_0000_0000_0000_0000_0000_0000_0000_0000_0000_0000_0000_0000_0000_0000_0000_0000_0000_0000_0000_0000_0000_0000int;
        let o7 = o6 + other.l7 * 0x1_0000_0000_0000_0000_0000_0000_0000_0000_0000_0000_0000_0000_0000_0000_0000_0000_0000_0000_0000_0000_0000_0000_0000_0000_0000_0000_0000_0000int;
        assert(s7 == self.value());
        assert(o7 == other.value());
        if self.l7 != other.l7 {
            assert(self.l7 < other.l7 ==> s7 < o7);
            assert(self.l7 > other.l7 ==> s7 > o7);
        } else if self.l6 != other.l6 {
            assert(self.l6 < other.l6 ==> s6 < o6);
            assert(self.l6 > other.l6 ==> s6 > o6);
        } else if self.l5 != other.l5 {
            assert(self.l5 < other.l5 ==> s5 < o5);
            assert(self.l5 > other.l5 ==> s5 > o5);
        } else if self.l4 != other.l4 {
            assert(self.l4 < other.l4 ==> s4 < o4);
            assert(self.l4 > other.l4 ==> s4 > o4);
        } else if self.l3 != other.l3 {
            assert(self.l3 < other.l3 ==> s3 < o3);
            assert(self.l3 > other.l3 ==> s3 > o3);
        } else if self.l2 != other.l2 {
            assert(self.l2 < other.l2 ==> s2 < o2);
            assert(self.l2 > other.l2 ==> s2 > o2);
        } else if self.l1 != other.l1 {
            assert(self.l1 < other.l1 ==> s1 < o1);
            assert(self.l1 > other.l1 ==> s1 > o1);
        }
    }

    /// The number zero.
    pub fn zero() -> (r: U512)
        ensures
            r.value() == 0,
    {
        U512 { l0: 0, l1: 0, l2: 0, l3: 0, l4: 0, l5: 0, l6: 0, l7: 0 }
    }

    /// The number that a `u64` holds.
    pub fn from_u64(n: u64) -> (r: U512)
        ensures
            r.value() == n,
    {
        U512 { l0: n, l1: 0, l2: 0, l3: 0, l4: 0, l5: 0, l6: 0, l7: 0 }
    }

    /// The number that a `u128` holds.
    pub fn from_u128(n: u128) -> (r: U512)
        ensures
            r.value() == n,
    {
        U512 {
            l0: (n % LIMB_BASE) as u64,
            l1: (n / LIMB_BASE) as u64,
            l2: 0,
            l3: 0,
            l4: 0,
            l5: 0,
            l6: 0,
            l7: 0,
        }
    }

    /// Whether the number is zero.
    pub fn is_zero(&self) -> (r: bool)
        ensures
            r == (self.value() == 0),
    {
        self.l0 == 0 && self.l1 == 0 && self.l2 == 0 && self.l3 == 0 && self.l4 == 0 && self.l5
            == 0 && self.l6 == 0 && self.l7 == 0
    }

    /// The number as a `u128`, where it fits.
    pub fn to_u128(&self) -> (r: Option<u128>)
        ensures
            r matches Some(n) ==> n == self.value(),
            r.is_some() == (self.value() <= u128::MAX),
    {
        if self.l2 == 0 && self.l3 == 0 && self.l4 == 0 && self.l5 == 0 && self.l6 == 0 && self.l7
            == 0 {
            Some(self.l1 as u128 * LIMB_BASE + self.l0 as u128)
        } else {
            None
        }
    }

    /// The number as a `u64`, where it fits.
    pub fn to_u64(&self) -> (r: Option<u64>)
        ensures
            r matches Some(n) ==> n == self.value(),
            r.is_some() == (self.value() <= u64::MAX),
    {
        if self.l1 == 0 && self.l2 == 0 && self.l3 == 0 && self.l4 == 0 && self.l5 == 0 && self.l6
            == 0 && self.l7 == 0 {
            Some(self.l0)
        } else {
            None
        }
    }

    /// Whether this number is smaller than the other.
    pub fn lt(&self, other: &U512) -> (r: bool)
        ensures
            r == (self.value() < other.value()),
    {
        if self.l7 != other.l7 {
            self.l7 < other.l7
        } else if self.l6 != other.l6 {
            self.l6 < other.l6
        } else if self.l5 != other.l5 {
            self.l5 < other.l5
        } else if self.l4 != other.l4 {
            self.l4 < other.l4
        } else if self.l3 != other.l3 {
            self.l3 < other.l3
        } else if self.l2 != other.l2 {
            self.l2 < other.l2
        } else if self.l1 != other.l1 {
            self.l1 < other.l1
        } else {
            self.l0 < other.l0
        }
    }

    /// Whether this number is at most the other.
    pub fn le(&self, other: &U512) -> (r: bool)
        ensures
            r == (self.value() <= other.value()),
    {
        !other.lt(self)
    }

    /// The sum, and whether it passed 2^512 and wrapped around.
    pub fn overflowing_add(self, other: U512) -> (r: (U512, bool))
        ensures
            r.0.value() + (if r.1 {
                u512_modulus()
            } else {
                0
            }) == self.value() + other.value(),
    {
        let (l0, c0) = add_limb(self.l0, other.l0, 0);
        let (l1, c1) = add_limb(self.l1, other.l1, c0);
        let (l2, c2) = add_limb(self.l2, other.l2, c1);
        let (l3, c3) = add_limb(self.l3, other.l3, c2);
        let (l4, c4) = add_limb(self.l4, other.l4, c3);
        let (l5, c5) = add_limb(self.l5, other.l5, c4);
        let (l6, c6) = add_limb(self.l6, other.l6, c5);
        let (l7, c7) = add_limb(self.l7, other.l7, c6);
        proof {
            lemma_carry_chain(
                self.l0 + other.l0,
                self.l1 + other.l1,
                self.l2 + other.l2,
                self.l3 + other.l3,
                self.l4 + other.l4,
                self.l5 + other.l5,
                self.l6 + other.l6,
                self.l7 + other.l7,
                l0 as int,
                l1 as int,
                l2 as int,
                l3 as int,
                l4 as int,
                l5 as int,
                l6 as int,
                l7 as int,
                0,
                c0 as int,
                c1 as int,
                c2 as int,
                c3 as int,
                c4 as int,
                c5 as int,
                c6 as int,
                c7 as int,
            );
        }
        (U512 { l0, l1, l2, l3, l4, l5, l6, l7 }, c7 == 1)
    }

    /// The sum modulo 2^512.
    pub fn wrapping_add(self, other: U512) -> (r: U512)
        ensures
            r.value() == (self.value() + other.value()) % u512_modulus(),
            self.value() + other.value() < u512_modulus() ==> r.value() == self.value()
                + other.value(),
            self.value() + other.value() >= u512_modulus() ==> r.value() == self.value()
                + other.value() - u512_modulus(),
    {
        let (sum, wrapped) = self.overflowing_add(other);
        proof {
            sum.lemma_value_bound();
            self.lemma_value_bound();
            other.lemma_value_bound();
            let s = self.value() + other.value();
            vstd::arithmetic::div_mod::lemma_fundamental_div_mod_converse(
                s as int,
                u512_modulus() as int,
                if wrapped {
                    1
                } else {
                    0
                },
                sum.value() as int,
            );
        }
        sum
    }

    /// The sum, where it stays below 2^512.
    pub fn checked_add(self, other: U512) -> (r: Option<U512>)
        ensures
            r matches Some(sum) ==> sum.value() == self.value() + other.value(),
            r.is_some() == (self.value() + other.value() < u512_modulus()),
    {
        let (sum, wrapped) = self.overflowing_add(other);
        proof {
            sum.lemma_value_bound();
        }
        if wrapped {
            None
        } else {
            Some(sum)
        }
    }

    /// The difference, where the other number is not the larger one.
    pub fn checked_sub(self, other: U512) -> (r: Option<U512>)
        ensures
            r matches Some(diff) ==> diff.value() == self.value() - other.value(),
            r.is_some() == (self.value() >= other.value()),
    {
        let (l0, b0) = sub_limb(self.l0, other.l0, 0);
        let (l1, b1) = sub_limb(self.l1, other.l1, b0);
        let (l2, b2) = sub_limb(self.l2, other.l2, b1);
        let (l3, b3) = sub_limb(self.l3, other.l3, b2);
        let (l4, b4) = sub_limb(self.l4, other.l4, b3);
        let (l5, b5) = sub_limb(self.l5, other.l5, b4);
        let (l6, b6) = sub_limb(self.l6, other.l6, b5);
        let (l7, b7) = sub_limb(self.l7, other.l7, b6);
        let diff = U512 { l0, l1, l2, l3, l4, l5, l6, l7 };
        proof {
            diff.lemma_value_bound();
            lemma_carry_chain(
                self.l0 - other.l0,
                self.l1 - other.l1,
                self.l2 - other.l2,
                self.l3 - other.l3,
                self.l4 - other.l4,
                self.l5 - other.l5,
                self.l6 - other.l6,
                self.l7 - other.l7,
                l0 as int,
                l1 as int,
                l2 as int,
                l3 as int,
                l4 as int,
                l5 as int,
                l6 as int,
                l7 as int,
                0,
                -b0,
                -b1,
                -b2,
                -b3,
                -b4,
                -b5,
                -b6,
                -b7,
            );
            assert(limbs_value(
                self.l0 - other.l0,
                self.l1 - other.l1,
                self.l2 - other.l2,
                self.l3 - other.l3,
                self.l4 - other.l4,
                self.l5 - other.l5,
                self.l6 - other.l6,
                self.l7 - other.l7,
            ) == self.value() - other.value());
            assert(diff.value() - b7 * 0x1_0000_0000_0000_0000_0000_0000_0000_0000_0000_0000_0000_0000_0000_0000_0000_0000_0000_0000_0000_0000_0000_0000_0000_0000_0000_0000_0000_0000_0000_0000_0000_0000int == self.value() - other.value());
        }
        if b7 == 1 {
            None
        } else {
            Some(diff)
        }
    }

    /// The number times a factor, plus an addend, where that stays below 2^512.
    pub fn checked_mul_add_u64(self, factor: u64, addend: u64) -> (r: Option<U512>)
        ensures
            r matches Some(n) ==> n.value() == self.value() * factor + addend,
            r.is_some() == (self.value() * factor + addend < u512_modulus()),
    {
        let (l0, c0) = mul_limb(self.l0, factor, addend);
        let (l1, c1) = mul_limb(self.l1, factor, c0);
        let (l2, c2) = mul_limb(self.l2, factor, c1);
        let (l3, c3) = mul_limb(self.l3, factor, c2);
        let (l4, c4) = mul_limb(self.l4, factor, c3);
        let (l5, c5) = mul_limb(self.l5, factor, c4);
        let (l6, c6) = mul_limb(self.l6, factor, c5);
        let (l7, c7) = mul_limb(self.l7, factor, c6);
        let product = U512 { l0, l1, l2, l3, l4, l5, l6, l7 };
        proof {
            product.lemma_value_bound();
            let f = factor as int;
            lemma_carry_chain(
                self.l0 * f,
                self.l1 * f,
                self.l2 * f,
                self.l3 * f,
                self.l4 * f,
                self.l5 * f,
                self.l6 * f,
                self.l7 * f,
                l0 as int,
                l1 as int,
                l2 as int,
                l3 as int,
                l4 as int,
                l5 as int,
                l6 as int,
                l7 as int,
                addend as int,
                c0 as int,
                c1 as int,
                c2 as int,
                c3 as int,
                c4 as int,
                c5 as int,
                c6 as int,
                c7 as int,
            );
            lemma_limbs_value_scaled(
                self.l0 as int,
                self.l1 as int,
                self.l2 as int,
                self.l3 as int,
                self.l4 as int,
                self.l5 as int,
                self.l6 as int,
                self.l7 as int,
                f,
            );
        }
        if c7 == 0 {
            Some(product)
        } else {
            None
        }
    }

    /// Quotient and remainder of the division by a positive divisor.
    pub fn div_rem_u64(self, divisor: u64) -> (r: (U512, u64))
        requires
            divisor > 0,
        ensures
            r.0.value() == self.value() / (divisor as nat),
            r.1 == self.value() % (divisor as nat),
    {
        let (l7, m) = div_limb(0, self.l7, divisor);
        let (l6, m) = div_limb(m, self.l6, divisor);
        let (l5, m) = div_limb(m, self.l5, divisor);
        let (l4, m) = div_limb(m, self.l4, divisor);
        let (l3, m) = div_limb(m, self.l3, divisor);
        let (l2, m) = div_limb(m, self.l2, divisor);
        let (l1, m) = div_limb(m, self.l1, divisor);
        let (l0, m) = div_limb(m, self.l0, divisor);
        let quotient = U512 { l0, l1, l2, l3, l4, l5, l6, l7 };
        proof {
            let d = divisor as int;
            lemma_limbs_value_scaled(
                l0 as int,
                l1 as int,
                l2 as int,
                l3 as int,
                l4 as int,
                l5 as int,
                l6 as int,
                l7 as int,
                d,
            );
            assert(self.value() == quotient.value() * d + m);
            vstd::arithmetic::div_mod::lemma_fundamental_div_mod_converse(
                self.value() as int,
                d,
                quotient.value() as int,
                m as int,
            );
        }
        (quotient, m)
    }
}

impl View for U512 {
    type V = nat;

    open spec fn view(&self) -> nat {
        self.value()
    }
}

} // verus!
