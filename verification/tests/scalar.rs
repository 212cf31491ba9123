use halo2curves::bn256::Fr;
use sparse_matrix::bn256::{Scalar, MODULUS_LIMBS};
use sparse_matrix::field::FieldElement;

fn small(x: u64) -> Scalar {
    Scalar::from_u64(x)
}

fn modulus_minus(x: u64) -> Scalar {
    let mut limbs = MODULUS_LIMBS;
    limbs[0] -= x;
    Scalar::from_limbs(limbs).unwrap()
}

#[test]
fn small_sums_and_products() {
    assert_eq!(small(3).add(&small(5)), small(8));
    assert_eq!(small(3).mul(&small(5)), small(15));
    assert_eq!(small(0).mul(&small(5)), small(0));
    assert_eq!(small(7).add(&small(0)), small(7));
    assert_eq!(small(7).mul(&small(1)), small(7));
}

#[test]
fn zero_and_one_are_the_identities() {
    assert_eq!(Scalar::zero(), small(0));
    assert_eq!(Scalar::one(), small(1));
    assert_eq!(Scalar::zero().to_limbs(), [0, 0, 0, 0]);
    assert_eq!(Scalar::one().to_limbs(), [1, 0, 0, 0]);
    let x = modulus_minus(12345);
    assert_eq!(x.add(&Scalar::zero()), x);
    assert_eq!(x.mul(&Scalar::one()), x);
    assert_eq!(x.mul(&Scalar::zero()), Scalar::zero());
}

#[test]
fn sum_wraps_at_the_modulus() {
    assert_eq!(modulus_minus(1).add(&small(1)), small(0));
    assert_eq!(modulus_minus(1).add(&small(5)), small(4));
    assert_eq!(modulus_minus(1).add(&modulus_minus(1)), modulus_minus(2));
}

#[test]
fn product_wraps_at_the_modulus() {
    assert_eq!(modulus_minus(1).mul(&modulus_minus(1)), small(1));
    assert_eq!(modulus_minus(1).mul(&small(2)), modulus_minus(2));
    // 2^64 * 2^64 = 2^128
    let two_64 = Scalar::from_limbs([0, 1, 0, 0]).unwrap();
    assert_eq!(two_64.mul(&two_64).to_limbs(), [0, 0, 1, 0]);
    // (2^64 - 1) * 3 = 2 * 2^64 + (2^64 - 3)
    assert_eq!(small(u64::MAX).mul(&small(3)).to_limbs(), [u64::MAX - 2, 2, 0, 0]);
    assert_eq!(small(u64::MAX).add(&small(1)).to_limbs(), [0, 1, 0, 0]);
}

#[test]
fn arithmetic_agrees_with_halo2curves() {
    let a = Fr::from(0x1234_5678_9abc_def0).square().square();
    let b = Fr::from(0x0fed_cba9_8765_4321).square() + Fr::one();
    let a_limbs: [u64; 4] = a.into();
    let b_limbs: [u64; 4] = b.into();
    let sum: [u64; 4] = (a + b).into();
    let product: [u64; 4] = (a * b).into();
    let sa = Scalar::from_limbs(a_limbs).unwrap();
    let sb = Scalar::from_limbs(b_limbs).unwrap();
    assert_eq!(sa.add(&sb).to_limbs(), sum);
    assert_eq!(sa.mul(&sb).to_limbs(), product);
    assert_ne!(sa.mul(&sb), sa);
    assert_ne!(sa.add(&sb), sa);
}

#[test]
fn from_limbs_takes_reduced_integers_only() {
    assert_eq!(Scalar::from_limbs([9, 0, 0, 0]), Some(small(9)));
    assert_eq!(Scalar::from_limbs(MODULUS_LIMBS), None);
    let mut below = MODULUS_LIMBS;
    below[0] -= 1;
    assert_eq!(Scalar::from_limbs(below).unwrap().to_limbs(), below);
    let mut above = MODULUS_LIMBS;
    above[0] += 1;
    assert_eq!(Scalar::from_limbs(above), None);
    assert_eq!(Scalar::from_limbs([u64::MAX; 4]), None);
    // Smaller in the low limbs, larger in a high one.
    assert_eq!(Scalar::from_limbs([0, 0, 0, MODULUS_LIMBS[3] + 1]), None);
    assert_eq!(Scalar::from_limbs([0, 0, MODULUS_LIMBS[2] + 1, MODULUS_LIMBS[3]]), None);
    assert_eq!(Scalar::from_limbs([0, MODULUS_LIMBS[1] + 1, MODULUS_LIMBS[2], MODULUS_LIMBS[3]]), None);
    // Larger in the low limbs, smaller in a high one.
    assert!(Scalar::from_limbs([u64::MAX, u64::MAX, u64::MAX, MODULUS_LIMBS[3] - 1]).is_some());
    assert!(Scalar::from_limbs([u64::MAX, u64::MAX, MODULUS_LIMBS[2] - 1, MODULUS_LIMBS[3]]).is_some());
    assert!(Scalar::from_limbs([u64::MAX, MODULUS_LIMBS[1] - 1, MODULUS_LIMBS[2], MODULUS_LIMBS[3]]).is_some());
}

#[test]
fn from_u64_fills_the_lowest_limb() {
    assert_eq!(small(0).to_limbs(), [0, 0, 0, 0]);
    assert_eq!(small(42).to_limbs(), [42, 0, 0, 0]);
    assert_eq!(small(u64::MAX).to_limbs(), [u64::MAX, 0, 0, 0]);
}

#[test]
fn modulus_limbs_spell_the_modulus_of_halo2curves() {
    // -1 is the modulus less one.
    let minus_one: [u64; 4] = (-Fr::one()).into();
    let mut limbs = MODULUS_LIMBS;
    limbs[0] -= 1;
    assert_eq!(minus_one, limbs);
}
