//! 256-bit unsigned integers made of two 128-bit limbs (token ids, balances).
use vstd::prelude::*;
use crate::felt::{Felt, limb_weight};
use vstd::arithmetic::div_mod::lemma_fundamental_div_mod_converse;

verus! {

/// `high * 2^128 + low`.
#[derive(Clone, Copy, Debug, PartialEq, Eq, Structural)]
pub struct Uint256 {
    pub low: u128,
    pub high: u128,
}

pub open spec fn max_uint256() -> int {
    limb_weight() * limb_weight() - 1
}

/// The limbs of a value in `0 ..= max_uint256()`.
pub open spec fn uint256_of(v: int) -> Uint256 {
    Uint256 { low: (v % limb_weight()) as u128, high: (v / limb_weight()) as u128 }
}

/// A value determines its limbs.
pub proof fn lemma_uint256_of_value(u: Uint256)
    ensures
        uint256_of(u.value()) == u,
{
    lemma_fundamental_div_mod_converse(u.value(), limb_weight(), u.high as int, u.low as int);
}

/// Limbs taken from a value in range give that value back.
pub proof fn lemma_uint256_of_range(v: int)
    requires
        0 <= v <= max_uint256(),
    ensures
        uint256_of(v).value() == v,
{
    vstd::arithmetic::div_mod::lemma_fundamental_div_mod(v, limb_weight());
    assert(v / limb_weight() < limb_weight()) by {
        vstd::arithmetic::div_mod::lemma_div_by_multiple_is_strongly_ordered(
            v, limb_weight() * limb_weight(), limb_weight(), limb_weight());
    }
}

/// Every value lies in `0 ..= max_uint256()`.
pub proof fn lemma_uint256_range(u: Uint256)
    ensures
        0 <= u.value() <= max_uint256(),
{
    assert(u.high as int * limb_weight() <= (limb_weight() - 1) * limb_weight()) by (nonlinear_arith)
        requires
            u.high < limb_weight(),
            limb_weight() > 0,
    ;
}

impl Uint256 {
    pub open spec fn value(self) -> int {
        self.high as int * limb_weight() + self.low as int
    }

    pub fn from_u128(v: u128) -> (r: Uint256)
        ensures
            r.value() == v,
            r.low == v,
            r.high == 0,
    {
        Uint256 { low: v, high: 0 }
    }

    /// Joins two scalars holding the low and the high 128 bits; `None` when
    /// either scalar does not fit in 128 bits.
    pub fn from_felts(low: Felt, high: Felt) -> (r: Option<Uint256>)
        ensures
            r is Some <==> (low.high == 0 && high.high == 0),
            r is Some ==> r->0.low == low.low && r->0.high == high.low,
    {
        if low.high == 0 && high.high == 0 {
            Some(Uint256 { low: low.low, high: high.low })
        } else {
            None
        }
    }

    pub open spec fn spec_le(self, other: Uint256) -> bool {
        self.high < other.high || (self.high == other.high && self.low <= other.low)
    }

    pub fn le(&self, other: &Uint256) -> (r: bool)
        ensures
            r == (self.value() <= other.value()),
    {
        proof {
            lemma_value_order(*self, *other);
        }
        self.high < other.high || (self.high == other.high && self.low <= other.low)
    }

    /// The sum, or `None` when it does not fit in 256 bits.
    pub fn checked_add(&self, other: &Uint256) -> (r: Option<Uint256>)
        ensures
            r is Some <==> self.value() + other.value() <= max_uint256(),
            r is Some ==> r->0.value() == self.value() + other.value(),
    {
        let carry: u128;
        let low: u128;
        if self.low <= u128::MAX - other.low {
            low = self.low + other.low;
            carry = 0;
        } else {
            low = self.low - (u128::MAX - other.low) - 1;
            carry = 1;
        }
        if self.high <= u128::MAX - other.high && self.high + other.high <= u128::MAX - carry {
            Some(Uint256 { low, high: self.high + other.high + carry })
        } else {
            None
        }
    }

    /// `self - other`, or zero where `other` is larger.
    pub fn saturating_sub(&self, other: &Uint256) -> (r: Uint256)
        ensures
            r.value() == if self.value() >= other.value() {
                self.value() - other.value()
            } else {
                0
            },
    {
        proof {
            lemma_value_order(*other, *self);
        }
        if !other.le(self) {
            return Uint256 { low: 0, high: 0 };
        }
        if self.low >= other.low {
            Uint256 { low: self.low - other.low, high: self.high - other.high }
        } else {
            Uint256 {
                low: (u128::MAX - other.low) + self.low + 1,
                high: self.high - other.high - 1,
            }
        }
    }
}

proof fn lemma_value_order(a: Uint256, b: Uint256)
    ensures
        a.spec_le(b) <==> a.value() <= b.value(),
{
    if a.high < b.high {
        assert(a.high as int * limb_weight() + limb_weight() <= b.high as int * limb_weight())
            by (nonlinear_arith)
            requires
                a.high < b.high,
                limb_weight() > 0,
        ;
    } else if a.high > b.high {
        assert(b.high as int * limb_weight() + limb_weight() <= a.high as int * limb_weight())
            by (nonlinear_arith)
            requires
                b.high < a.high,
                limb_weight() > 0,
        ;
    }
}

} // verus!
