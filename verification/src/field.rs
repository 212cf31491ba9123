//! The scalar interface the matrix engine is written against.
//!
//! A field element is modelled by the integer it stands for: `value()` is its
//! representative and `modulus()` the characteristic, so that the field's sum
//! and product are the integer ones reduced by the modulus.

use vstd::prelude::*;

verus! {

/// An element of a prime field.
///
/// An element is reduced when `value() < modulus()`. The operations are
/// total, and what they return is always reduced.
pub trait FieldElement: Copy + Send + Sync {
    /// The characteristic of the field.
    spec fn modulus() -> nat;

    /// The integer that this element stands for.
    spec fn value(&self) -> nat;

    /// The field has more than one element.
    proof fn lemma_modulus_above_one()
        ensures
            Self::modulus() > 1,
    ;

    /// Two elements that stand for the same integer are the same element.
    proof fn lemma_value_injective(a: Self, b: Self)
        requires
            a.value() == b.value(),
        ensures
            a == b,
    ;

    /// The additive identity.
    fn zero() -> (r: Self)
        ensures
            r.value() == 0,
            r.value() < Self::modulus(),
    ;

    /// The multiplicative identity.
    fn one() -> (r: Self)
        ensures
            r.value() == 1,
            r.value() < Self::modulus(),
    ;

    /// The sum of `self` and `rhs` in the field.
    fn add(&self, rhs: &Self) -> (r: Self)
        ensures
            r.value() == (self.value() + rhs.value()) % Self::modulus(),
            r.value() < Self::modulus(),
    ;

    /// The product of `self` and `rhs` in the field.
    fn mul(&self, rhs: &Self) -> (r: Self)
        ensures
            r.value() == (self.value() * rhs.value()) % Self::modulus(),
            r.value() < Self::modulus(),
    ;
}

/// The integers that the elements of `v` stand for, in order.
pub open spec fn values_of<F: FieldElement>(v: Seq<F>) -> Seq<int> {
    Seq::new(v.len(), |j: int| v[j].value() as int)
}

/// `x` stands for an integer below the modulus.
pub open spec fn is_reduced<F: FieldElement>(x: F) -> bool {
    x.value() < F::modulus()
}

/// Every element of `v` is reduced.
pub open spec fn all_reduced<F: FieldElement>(v: Seq<F>) -> bool {
    forall|j: int| 0 <= j < v.len() ==> is_reduced(#[trigger] v[j])
}

/// Vectors that stand for the same integers, entry by entry, are the same
/// vector.
pub proof fn lemma_values_injective<F: FieldElement>(a: Seq<F>, b: Seq<F>)
    requires
        values_of(a) == values_of(b),
    ensures
        a == b,
{
    assert(a.len() == values_of(a).len());
    assert(b.len() == values_of(b).len());
    assert(a.len() == b.len());
    assert forall|j: int| 0 <= j < a.len() implies a[j] == b[j] by {
        assert(values_of(a)[j] == a[j].value());
        assert(values_of(b)[j] == b[j].value());
        F::lemma_value_injective(a[j], b[j]);
    }
    assert(a =~= b);
}

} // verus!
