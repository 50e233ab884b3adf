//! The wire format: round trips, bit-identity with the reference
//! serializer, and rejection of malformed input.

use ark_ec::AffineRepr;
use ark_ff::PrimeField;
use ark_serialize::CanonicalSerialize;
use ark_std::UniformRand;
use bn254_msm::{BnAffinePoint, BnScalar, DecodeError, VecG1Affine, VecScalarField};

type G1Affine = ark_bn254::G1Affine;
type Fr = ark_bn254::Fr;

fn wrap_g1affine(p: &G1Affine) -> BnAffinePoint {
    BnAffinePoint(p.x.into_bigint().0, p.y.into_bigint().0)
}

fn wrap_scalar(s: &Fr) -> BnScalar {
    BnScalar(s.into_bigint().0)
}

fn random_points(n: usize) -> Vec<BnAffinePoint> {
    let mut rng = ark_std::test_rng();
    (0..n).map(|_| wrap_g1affine(&G1Affine::rand(&mut rng))).collect()
}

fn random_scalars(n: usize) -> Vec<BnScalar> {
    let mut rng = ark_std::test_rng();
    (0..n).map(|_| wrap_scalar(&Fr::rand(&mut rng))).collect()
}

fn points_round_trip(n: usize) {
    let v = VecG1Affine(random_points(n));
    let bytes = v.serialize();
    let back = VecG1Affine::deserialize(&bytes).unwrap();
    assert_eq!(back.0, v.0);
}

fn scalars_round_trip(n: usize) {
    let v = VecScalarField(random_scalars(n));
    let bytes = v.serialize();
    let back = VecScalarField::deserialize(&bytes).unwrap();
    assert_eq!(back.0, v.0);
}

#[test]
fn points_round_trip_empty() {
    points_round_trip(0);
}

#[test]
fn points_round_trip_one() {
    points_round_trip(1);
}

#[test]
fn points_round_trip_hundred() {
    points_round_trip(100);
}

#[test]
fn scalars_round_trip_empty() {
    scalars_round_trip(0);
}

#[test]
fn scalars_round_trip_one() {
    scalars_round_trip(1);
}

#[test]
fn scalars_round_trip_hundred() {
    scalars_round_trip(100);
}

#[test]
fn point_encoding_is_bit_identical_to_the_reference() {
    let mut rng = ark_std::test_rng();
    let points: Vec<G1Affine> = (0..32).map(|_| G1Affine::rand(&mut rng)).collect();
    let mut expected = Vec::new();
    points.serialize_uncompressed(&mut expected).unwrap();
    let v = VecG1Affine(points.iter().map(wrap_g1affine).collect());
    assert_eq!(v.serialize(), expected);
}

#[test]
fn scalar_encoding_is_bit_identical_to_the_reference() {
    let mut rng = ark_std::test_rng();
    let scalars: Vec<Fr> = (0..32).map(|_| Fr::rand(&mut rng)).collect();
    let mut expected = Vec::new();
    scalars.serialize_uncompressed(&mut expected).unwrap();
    let v = VecScalarField(scalars.iter().map(wrap_scalar).collect());
    assert_eq!(v.serialize(), expected);
}

#[test]
fn truncated_point_bytes_are_rejected() {
    let v = VecG1Affine(random_points(2));
    let mut bytes = v.serialize();
    bytes.pop();
    assert_eq!(VecG1Affine::deserialize(&bytes).unwrap_err(), DecodeError::BadLength);
    assert_eq!(VecG1Affine::deserialize(&bytes[..4]).unwrap_err(), DecodeError::BadLength);
}

#[test]
fn wrong_count_prefix_is_rejected() {
    let v = VecG1Affine(random_points(2));
    let mut bytes = v.serialize();
    bytes[0] = bytes[0].wrapping_add(1);
    assert_eq!(VecG1Affine::deserialize(&bytes).unwrap_err(), DecodeError::BadLength);
}

#[test]
fn out_of_range_coordinate_is_rejected() {
    // x equal to the base-field modulus q is not canonical.
    let q = [
        0x3c208c16d87cfd47u64,
        0x97816a916871ca8d,
        0xb85045b68181585d,
        0x30644e72e131a029,
    ];
    let v = VecG1Affine(vec![BnAffinePoint(q, [2, 0, 0, 0])]);
    let bytes = v.serialize();
    assert_eq!(VecG1Affine::deserialize(&bytes).unwrap_err(), DecodeError::BadElement);
}

#[test]
fn infinity_mark_is_rejected() {
    // The reference serializer writes the point at infinity as zeros with
    // the infinity flag in the last byte; this core never represents it.
    let inf = G1Affine::identity();
    let mut bytes = Vec::new();
    vec![inf].serialize_uncompressed(&mut bytes).unwrap();
    assert_eq!(bytes[71] & 0x40, 0x40);
    assert_eq!(VecG1Affine::deserialize(&bytes).unwrap_err(), DecodeError::BadElement);
}

#[test]
fn out_of_range_scalar_is_rejected() {
    // A scalar equal to the scalar-field modulus r is not canonical.
    let r = [
        0x43e1f593f0000001u64,
        0x2833e84879b97091,
        0xb85045b68181585d,
        0x30644e72e131a029,
    ];
    let v = VecScalarField(vec![BnScalar(r)]);
    let bytes = v.serialize();
    assert_eq!(VecScalarField::deserialize(&bytes).unwrap_err(), DecodeError::BadElement);
}

#[test]
fn sign_flag_follows_the_y_coordinate() {
    // G = (1, 2) has a small y: no flag. -G has y = q - 2, above (q-1)/2:
    // the top bit of the last byte must be set and must round-trip away.
    let g = G1Affine::generator();
    let neg_g = -g;
    let v = VecG1Affine(vec![wrap_g1affine(&g), wrap_g1affine(&neg_g)]);
    let bytes = v.serialize();
    assert_eq!(bytes[8 + 63] & 0x80, 0);
    assert_eq!(bytes[8 + 127] & 0x80, 0x80);
    let back = VecG1Affine::deserialize(&bytes).unwrap();
    assert_eq!(back.0, v.0);
    let mut expected = Vec::new();
    vec![g, neg_g].serialize_uncompressed(&mut expected).unwrap();
    assert_eq!(bytes, expected);
}
