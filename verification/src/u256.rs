//! Unsigned 256-bit integers.

use vstd::prelude::*;

verus! {

/// 2^256, one more than the largest value.
pub open spec fn u256_modulus() -> nat {
    0x1_0000_0000_0000_0000_0000_0000_0000_0000_0000_0000_0000_0000_0000_0000_0000_0000nat
}

/// An unsigned integer below 2^256, held as two halves of 128 bits.
#[derive(Clone, Copy, Debug, PartialEq, Eq, Structural)]
pub struct U256 {
    hi: u128,
    lo: u128,
}

impl U256 {
    /// The number that the two halves stand for.
    pub closed spec fn value(self) -> nat {
        (self.hi * 0x1_0000_0000_0000_0000_0000_0000_0000_0000int + self.lo) as nat
    }

    /// Every value lies below 2^256.
    pub proof fn lemma_value_bound(self)
        ensures
            self.value() < u256_modulus(),
    {
    }

    /// Two numbers with the same value are the same number.
    pub proof fn lemma_value_injective(self, other: U256)
        requires
            self.value() == other.value(),
        ensures
            self == other,
    {
    }

    /// The number zero.
    pub fn zero() -> (r: U256)
        ensures
            r.value() == 0,
    {
        U256 { hi: 0, lo: 0 }
    }

    /// The number that a `u128` holds.
    pub fn from_u128(n: u128) -> (r: U256)
        ensures
            r.value() == n,
    {
        U256 { hi: 0, lo: n }
    }

    /// The number as a `u128`, where it fits.
    pub fn to_u128(&self) -> (r: Option<u128>)
        ensures
            r matches Some(n) ==> n == self.value(),
            r.is_some() == (self.value() <= u128::MAX),
    {
        if self.hi == 0 {
            Some(self.lo)
        } else {
            None
        }
    }

    /// The sum modulo 2^256.
    pub fn wrapping_add(self, other: U256) -> (r: U256)
        ensures
            r.value() == (self.value() + other.value()) % u256_modulus(),
            self.value() + other.value() < u256_modulus() ==> r.value() == self.value()
                + other.value(),
            self.value() + other.value() >= u256_modulus() ==> r.value() == self.value()
                + other.value() - u256_modulus(),
    {
        let lo = self.lo.wrapping_add(other.lo);
        let carry: u128 = if lo < self.lo {
            1
        } else {
            0
        };
        let hi = self.hi.wrapping_add(other.hi).wrapping_add(carry);
        let r = U256 { hi, lo };
        proof {
            let s = self.value() + other.value();
            let m = 0x1_0000_0000_0000_0000_0000_0000_0000_0000_0000_0000_0000_0000_0000_0000_0000_0000int;
            assert(s >= m ==> r.value() == s - m);
            assert(s < m ==> r.value() == s);
            if s >= m {
                vstd::arithmetic::div_mod::lemma_fundamental_div_mod_converse(
                    s as int,
                    m,
                    1,
                    r.value() as int,
                );
            } else {
                vstd::arithmetic::div_mod::lemma_fundamental_div_mod_converse(
                    s as int,
                    m,
                    0,
                    r.value() as int,
                );
            }
        }
        r
    }
}

} // verus!
