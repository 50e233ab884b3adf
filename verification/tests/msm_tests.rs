//! The engine against an independent implementation: every result is
//! compared with `ark_bn254`'s own projective scalar multiplication.

use ark_ec::{AffineRepr, CurveGroup, Group};
use ark_ff::{BigInt, PrimeField};
use ark_std::UniformRand;
use bn254_msm::{msm, validate_points, BnAffinePoint, BnScalar, MsmError};

type G1Affine = ark_bn254::G1Affine;
type G1Projective = ark_bn254::G1Projective;
type Fr = ark_bn254::Fr;

fn wrap_g1affine(p: &G1Affine) -> BnAffinePoint {
    BnAffinePoint(p.x.into_bigint().0, p.y.into_bigint().0)
}

fn unwrap_g1affine(p: &BnAffinePoint) -> G1Affine {
    G1Affine::new_unchecked(BigInt(p.0).into(), BigInt(p.1).into())
}

fn wrap_scalar(s: &Fr) -> BnScalar {
    BnScalar(s.into_bigint().0)
}

/// The sum of each point times its scalar, by ark's full projective
/// arithmetic: the trusted reference.
fn reference_msm(points: &[G1Affine], scalars: &[Fr]) -> G1Affine {
    let mut acc = G1Projective::default();
    for (p, s) in points.iter().zip(scalars.iter()) {
        acc += *p * *s;
    }
    acc.into_affine()
}

fn random_case(n: usize) {
    let mut rng = ark_std::test_rng();
    let points: Vec<G1Affine> = (0..n).map(|_| G1Affine::rand(&mut rng)).collect();
    let scalars: Vec<Fr> = (0..n).map(|_| Fr::rand(&mut rng)).collect();
    let lib_points: Vec<BnAffinePoint> = points.iter().map(wrap_g1affine).collect();
    let lib_scalars: Vec<BnScalar> = scalars.iter().map(wrap_scalar).collect();
    let got = msm(&lib_points, &lib_scalars).unwrap();
    let expected = reference_msm(&points, &scalars);
    assert_eq!(unwrap_g1affine(&got), expected);
}

#[test]
fn msm_matches_reference_size_1() {
    random_case(1);
}

#[test]
fn msm_matches_reference_size_2() {
    random_case(2);
}

#[test]
fn msm_matches_reference_size_8() {
    random_case(8);
}

#[test]
fn msm_matches_reference_size_64() {
    random_case(64);
}

#[test]
fn zero_scalar_pair_is_skipped() {
    let mut rng = ark_std::test_rng();
    let points: Vec<G1Affine> = (0..3).map(|_| G1Affine::rand(&mut rng)).collect();
    let mut scalars: Vec<Fr> = (0..3).map(|_| Fr::rand(&mut rng)).collect();
    scalars[1] = Fr::from(0u64);
    let lib_points: Vec<BnAffinePoint> = points.iter().map(wrap_g1affine).collect();
    let lib_scalars: Vec<BnScalar> = scalars.iter().map(wrap_scalar).collect();
    let with_zero = msm(&lib_points, &lib_scalars).unwrap();
    let shorter_points = vec![lib_points[0], lib_points[2]];
    let shorter_scalars = vec![lib_scalars[0], lib_scalars[2]];
    let without = msm(&shorter_points, &shorter_scalars).unwrap();
    assert_eq!(with_zero, without);
}

#[test]
fn single_pair_is_scalar_multiplication() {
    let mut rng = ark_std::test_rng();
    let p = G1Affine::rand(&mut rng);
    let s = Fr::rand(&mut rng);
    let got = msm(&vec![wrap_g1affine(&p)], &vec![wrap_scalar(&s)]).unwrap();
    assert_eq!(unwrap_g1affine(&got), (p * s).into_affine());
}

#[test]
fn copermuting_both_vectors_keeps_the_result() {
    let mut rng = ark_std::test_rng();
    let points: Vec<G1Affine> = (0..4).map(|_| G1Affine::rand(&mut rng)).collect();
    let scalars: Vec<Fr> = (0..4).map(|_| Fr::rand(&mut rng)).collect();
    let lib_points: Vec<BnAffinePoint> = points.iter().map(wrap_g1affine).collect();
    let lib_scalars: Vec<BnScalar> = scalars.iter().map(wrap_scalar).collect();
    let plain = msm(&lib_points, &lib_scalars).unwrap();
    let perm: [usize; 4] = [2, 0, 3, 1];
    let perm_points: Vec<BnAffinePoint> = perm.iter().map(|&i| lib_points[i]).collect();
    let perm_scalars: Vec<BnScalar> = perm.iter().map(|&i| lib_scalars[i]).collect();
    let permuted = msm(&perm_points, &perm_scalars).unwrap();
    assert_eq!(plain, permuted);
}

#[test]
fn generator_times_five_matches_the_table() {
    // The BN254 G1 generator is the known point (1, 2).
    let g = G1Affine::generator();
    assert_eq!(g, G1Affine::new_unchecked(BigInt([1, 0, 0, 0]).into(), BigInt([2, 0, 0, 0]).into()));
    let five = BnScalar([5, 0, 0, 0]);
    let got = msm(&vec![wrap_g1affine(&g)], &vec![five]).unwrap();
    // 5 * G by five sequential doublings/additions of the reference arithmetic.
    let two_g = g.into_group().double();
    let four_g = two_g.double();
    let five_g = (four_g + g).into_affine();
    assert_eq!(unwrap_g1affine(&got), five_g);
    assert_eq!(five_g, (g * Fr::from(5u64)).into_affine());
}

#[test]
fn multiplying_by_two_is_doubling() {
    // Through the public entry point this exercises both primitive
    // operations: a result equal to the input point would mean the backend
    // wrappers handed their argument back unchanged.
    let g = G1Affine::generator();
    let got = msm(&vec![wrap_g1affine(&g)], &vec![BnScalar([2, 0, 0, 0])]).unwrap();
    assert_ne!(got, wrap_g1affine(&g));
    assert_eq!(unwrap_g1affine(&got), g.into_group().double().into_affine());
}

#[test]
fn mismatched_lengths_are_rejected() {
    let mut rng = ark_std::test_rng();
    let points: Vec<BnAffinePoint> = (0..3)
        .map(|_| wrap_g1affine(&G1Affine::rand(&mut rng)))
        .collect();
    let scalars: Vec<BnScalar> = (0..2).map(|_| wrap_scalar(&Fr::rand(&mut rng))).collect();
    assert_eq!(msm(&points, &scalars), Err(MsmError::LengthMismatch));
}

#[test]
fn all_zero_scalars_are_rejected() {
    let mut rng = ark_std::test_rng();
    let points: Vec<BnAffinePoint> = (0..2)
        .map(|_| wrap_g1affine(&G1Affine::rand(&mut rng)))
        .collect();
    let scalars = vec![BnScalar([0, 0, 0, 0]), BnScalar([0, 0, 0, 0])];
    assert_eq!(msm(&points, &scalars), Err(MsmError::ZeroScalarVector));
}

#[test]
fn empty_input_is_rejected() {
    assert_eq!(msm(&vec![], &vec![]), Err(MsmError::ZeroScalarVector));
}

#[test]
fn validate_points_accepts_curve_points_and_rejects_others() {
    let g = G1Affine::generator();
    let on = vec![wrap_g1affine(&g), wrap_g1affine(&(g.into_group().double().into_affine()))];
    assert!(validate_points(&on));
    // (1, 3) is not on the curve: 9 != 1 + 3.
    let off = vec![wrap_g1affine(&g), BnAffinePoint([1, 0, 0, 0], [3, 0, 0, 0])];
    assert!(!validate_points(&off));
}
