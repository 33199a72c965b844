//! Field elements for circuit values: integers modulo a 64-bit prime.
//!
//! The circuit layer needs a field with addition, multiplication, the two
//! identities and negation; everything is stated over the mathematical
//! residues `fadd`, `fmul` and `fneg` so that contracts elsewhere can speak
//! of grid values as plain integers below the modulus.

use vstd::prelude::*;

verus! {

/// The prime modulus `2^64 - 2^32 + 1`.
pub const MODULUS: u64 = 0xFFFF_FFFF_0000_0001;

/// Residue of `a + b` modulo the field prime.
pub open spec fn fadd(a: int, b: int) -> int {
    (a + b) % (MODULUS as int)
}

/// Residue of `a * b` modulo the field prime.
pub open spec fn fmul(a: int, b: int) -> int {
    (a * b) % (MODULUS as int)
}

/// Residue of `-a` modulo the field prime.
pub open spec fn fneg(a: int) -> int {
    (MODULUS as int - a) % (MODULUS as int)
}

/// A field element, kept reduced below `MODULUS`.
#[derive(Clone, Copy, PartialEq, Eq, Structural, Debug)]
pub struct Felt {
    v: u64,
}

impl Felt {
    /// The mathematical value of the element.
    pub closed spec fn val(self) -> int {
        self.v as int
    }

    /// A field element is well formed when it is a reduced residue.
    pub open spec fn inv(self) -> bool {
        0 <= self.val() < MODULUS as int
    }

    /// The element representing `x` (reduced modulo the prime).
    pub fn from_u64(x: u64) -> (r: Felt)
        ensures
            r.inv(),
            r.val() == x as int % (MODULUS as int),
    {
        Felt { v: x % MODULUS }
    }

    /// The additive identity.
    pub fn zero() -> (r: Felt)
        ensures
            r.inv(),
            r.val() == 0,
    {
        Felt { v: 0 }
    }

    /// The multiplicative identity.
    pub fn one() -> (r: Felt)
        ensures
            r.inv(),
            r.val() == 1,
    {
        Felt { v: 1 }
    }

    /// Whether the element is the additive identity.
    pub fn is_zero(&self) -> (b: bool)
        ensures
            b == (self.val() == 0),
    {
        self.v == 0
    }

    /// Whether two elements have the same mathematical value.
    pub fn eq_val(&self, other: &Felt) -> (b: bool)
        ensures
            b == (self.val() == other.val()),
    {
        self.v == other.v
    }

    /// Field addition.
    pub fn add(self, rhs: Felt) -> (r: Felt)
        requires
            self.inv(),
            rhs.inv(),
        ensures
            r.inv(),
            r.val() == fadd(self.val(), rhs.val()),
    {
        let s: u128 = self.v as u128 + rhs.v as u128;
        let m: u128 = s % (MODULUS as u128);
        Felt { v: m as u64 }
    }

    /// Field multiplication.
    pub fn mul(self, rhs: Felt) -> (r: Felt)
        requires
            self.inv(),
            rhs.inv(),
        ensures
            r.inv(),
            r.val() == fmul(self.val(), rhs.val()),
    {
        proof {
            vstd::arithmetic::mul::lemma_mul_upper_bound(
                self.v as int,
                u64::MAX as int,
                rhs.v as int,
                u64::MAX as int,
            );
        }
        let p: u128 = self.v as u128 * rhs.v as u128;
        let m: u128 = p % (MODULUS as u128);
        Felt { v: m as u64 }
    }

    /// Field negation.
    pub fn neg(self) -> (r: Felt)
        requires
            self.inv(),
        ensures
            r.inv(),
            r.val() == fneg(self.val()),
    {
        Felt { v: (MODULUS - self.v) % MODULUS }
    }
}

/// Multiplying by the additive identity yields the additive identity.
pub proof fn lemma_fmul_zero(x: int)
    ensures
        fmul(x, 0) == 0,
        fmul(0, x) == 0,
{
    assert(x * 0 == 0);
    assert(0 * x == 0);
}

/// Multiplying a reduced residue by the multiplicative identity keeps it.
pub proof fn lemma_fmul_one(x: int)
    requires
        0 <= x < MODULUS as int,
    ensures
        fmul(x, 1) == x,
{
    assert(x * 1 == x);
    vstd::arithmetic::div_mod::lemma_small_mod(x as nat, MODULUS as nat);
}

/// Adding the additive identity keeps a reduced residue.
pub proof fn lemma_fadd_zero(x: int)
    requires
        0 <= x < MODULUS as int,
    ensures
        fadd(0, x) == x,
        fadd(x, 0) == x,
{
    vstd::arithmetic::div_mod::lemma_small_mod(x as nat, MODULUS as nat);
}

/// A reduced residue and its negation sum to the additive identity.
pub proof fn lemma_fadd_neg(x: int)
    requires
        0 <= x < MODULUS as int,
    ensures
        fadd(x, fneg(x)) == 0,
{
    if x == 0 {
        assert(fneg(0) == 0) by {
            assert(MODULUS as int % MODULUS as int == 0);
        }
    } else {
        vstd::arithmetic::div_mod::lemma_small_mod((MODULUS as int - x) as nat, MODULUS as nat);
        assert(x + (MODULUS as int - x) == MODULUS as int);
        assert(MODULUS as int % MODULUS as int == 0);
    }
}

/// Negating the additive identity yields the additive identity.
pub proof fn lemma_fneg_zero()
    ensures
        fneg(0) == 0,
{
    assert(MODULUS as int % MODULUS as int == 0);
}

/// Residues produced by the field operations are reduced.
pub proof fn lemma_f_bounds(a: int, b: int)
    ensures
        0 <= fadd(a, b) < MODULUS as int,
        0 <= fmul(a, b) < MODULUS as int,
        0 <= fneg(a) < MODULUS as int,
{
}

} // verus!
