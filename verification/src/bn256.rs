//! The scalar field of the BN254 curve.
//!
//! A [`Scalar`] keeps the canonical integer of a field element as four 64-bit
//! limbs, least significant first. The arithmetic itself is done by
//! `halo2curves`, behind two small trusted functions.

use crate::field::{is_reduced, FieldElement};
use halo2curves::bn256::Fr;
use vstd::prelude::*;

verus! {

/// The order of the field:
/// `0x30644e72e131a029b85045b68181585d2833e84879b9709143e1f593f0000001`.
pub open spec fn scalar_modulus() -> nat {
    0x30644e72e131a029b85045b68181585d2833e84879b9709143e1f593f0000001nat
}

/// The integer that four little-endian 64-bit limbs spell.
pub open spec fn limbs_value(limbs: [u64; 4]) -> nat {
    (limbs[0] as nat) + (limbs[1] as nat) * 0x1_0000_0000_0000_0000nat + (limbs[2] as nat)
        * 0x1_0000_0000_0000_0000_0000_0000_0000_0000nat + (limbs[3] as nat)
        * 0x1_0000_0000_0000_0000_0000_0000_0000_0000_0000_0000_0000_0000nat
}

/// The limbs of the modulus, least significant first.
pub const MODULUS_LIMBS: [u64; 4] = [
    0x43e1f593f0000001,
    0x2833e84879b97091,
    0xb85045b68181585d,
    0x30644e72e131a029,
];

/// Different limbs spell different integers.
pub proof fn lemma_limbs_value_injective(a: [u64; 4], b: [u64; 4])
    requires
        limbs_value(a) == limbs_value(b),
    ensures
        a == b,
{
    assert(a[0] == b[0] && a[1] == b[1] && a[2] == b[2] && a[3] == b[3]);
    assert(a =~= b);
}

/// `MODULUS_LIMBS` spells the modulus.
pub proof fn lemma_modulus_limbs()
    ensures
        limbs_value(MODULUS_LIMBS) == scalar_modulus(),
{
}

/// An element of the BN254 scalar field.
#[derive(Clone, Copy, Debug, PartialEq, Eq)]
pub struct Scalar {
    limbs: [u64; 4],
}

/// Sum in the field, computed by `halo2curves`.
///
/// `Fr::from_raw` takes any 256-bit integer to the field element congruent to
/// it, `+` on `Fr` is the field's addition, and the conversion of an `Fr` into
/// `[u64; 4]` gives the limbs of its canonical integer. So the limbs returned
/// spell the sum of the two integers, reduced by the modulus.
#[verifier::external_body]
fn fr_add(a: &[u64; 4], b: &[u64; 4]) -> (r: [u64; 4])
    ensures
        limbs_value(r) == (limbs_value(*a) + limbs_value(*b)) % scalar_modulus(),
{
    let sum = Fr::from_raw(*a) + Fr::from_raw(*b);
    sum.into()
}

/// Product in the field, computed by `halo2curves`.
///
/// As for the sum: both operands are taken by `Fr::from_raw`, multiplied with
/// `*` on `Fr`, and the product is converted into the limbs of its canonical
/// integer, which is the product of the two integers reduced by the modulus.
#[verifier::external_body]
fn fr_mul(a: &[u64; 4], b: &[u64; 4]) -> (r: [u64; 4])
    ensures
        limbs_value(r) == (limbs_value(*a) * limbs_value(*b)) % scalar_modulus(),
{
    let product = Fr::from_raw(*a) * Fr::from_raw(*b);
    product.into()
}

impl Scalar {
    /// The limbs of this element's integer, least significant first.
    pub closed spec fn spec_limbs(&self) -> [u64; 4] {
        self.limbs
    }

    /// The element that stands for `x`.
    pub fn from_u64(x: u64) -> (r: Self)
        ensures
            r.value() == x,
            is_reduced(r),
    {
        Scalar { limbs: [x, 0, 0, 0] }
    }

    /// The element whose integer the limbs spell, least significant limb
    /// first; `None` when that integer is not below the modulus.
    pub fn from_limbs(limbs: [u64; 4]) -> (r: Option<Self>)
        ensures
            r is Some <==> limbs_value(limbs) < scalar_modulus(),
            r matches Some(s) ==> s.spec_limbs() == limbs && s.value() == limbs_value(limbs)
                && is_reduced(s),
    {
        let below = limbs[3] < MODULUS_LIMBS[3] || (limbs[3] == MODULUS_LIMBS[3] && (limbs[2]
            < MODULUS_LIMBS[2] || (limbs[2] == MODULUS_LIMBS[2] && (limbs[1] < MODULUS_LIMBS[1] || (
        limbs[1] == MODULUS_LIMBS[1] && limbs[0] < MODULUS_LIMBS[0])))));
        proof {
            lemma_modulus_limbs();
        }
        if below {
            Some(Scalar { limbs })
        } else {
            None
        }
    }

    /// The limbs of this element's integer, least significant first.
    pub fn to_limbs(&self) -> (limbs: [u64; 4])
        ensures
            limbs == self.spec_limbs(),
            limbs_value(limbs) == self.value(),
    {
        self.limbs
    }
}

impl FieldElement for Scalar {
    open spec fn modulus() -> nat {
        scalar_modulus()
    }

    open spec fn value(&self) -> nat {
        limbs_value(self.spec_limbs())
    }

    proof fn lemma_modulus_above_one() {
    }

    proof fn lemma_value_injective(a: Self, b: Self) {
        lemma_limbs_value_injective(a.limbs, b.limbs);
    }

    fn zero() -> (r: Self) {
        Scalar { limbs: [0, 0, 0, 0] }
    }

    fn one() -> (r: Self) {
        Scalar { limbs: [1, 0, 0, 0] }
    }

    fn add(&self, rhs: &Self) -> (r: Self) {
        Scalar { limbs: fr_add(&self.limbs, &rhs.limbs) }
    }

    fn mul(&self, rhs: &Self) -> (r: Self) {
        Scalar { limbs: fr_mul(&self.limbs, &rhs.limbs) }
    }
}

} // verus!
