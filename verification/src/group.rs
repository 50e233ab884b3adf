//! The two primitive group operations, and the opt-in curve-membership
//! check.
//!
//! The engine combines points exclusively through `bn254_add` and
//! `bn254_double`; the group arithmetic itself is the backend's
//! (`ark_bn254`), so the two operations' results carry the uninterpreted
//! names `add_of` and `double_of`, and everything the engine proves is
//! stated over those names.

use vstd::prelude::*;
use crate::limbs::{limbs4_val, q_val};
use crate::point::{point_canonical, point_x, point_y, BnAffinePoint};
use ark_ec::{AffineRepr, CurveGroup, Group};
use ark_ff::PrimeField;

verus! {

/// The limbs of the affine sum of the two points, as the backend's addition
/// computes it from the given limbs.
pub uninterp spec fn add_of(p: Seq<u64>, q: Seq<u64>) -> Seq<u64>;

/// The limbs of the affine double of the point, as the backend's doubling
/// computes it from the given limbs.
pub uninterp spec fn double_of(p: Seq<u64>) -> Seq<u64>;

/// Relies on `ark_bn254` G1 affine addition (`Affine + Affine` in the short
/// Weierstrass model) for the sum, and on `PrimeField::into_bigint` for the
/// result's coordinates being the canonical reduced representatives. The
/// canonicality bound on the arguments keeps the field conversions
/// (`From<BigInt>`, which rejects values at or above the modulus) from
/// failing.
#[verifier::external_body]
pub fn bn254_add(p: &BnAffinePoint, q: &BnAffinePoint) -> (r: BnAffinePoint)
    requires
        point_canonical(p@),
        point_canonical(q@),
    ensures
        r@ == add_of(p@, q@),
        point_canonical(r@),
{
    let pa = ark_bn254::G1Affine::new_unchecked(
        ark_ff::BigInt(p.0).into(),
        ark_ff::BigInt(p.1).into(),
    );
    let qa = ark_bn254::G1Affine::new_unchecked(
        ark_ff::BigInt(q.0).into(),
        ark_ff::BigInt(q.1).into(),
    );
    let ra = (pa + qa).into_affine();
    BnAffinePoint(ra.x.into_bigint().0, ra.y.into_bigint().0)
}

/// Relies on `ark_ec::Group::double` (the point added to itself) for the
/// doubled point, and on `PrimeField::into_bigint` for the result's
/// coordinates being the canonical reduced representatives. The
/// canonicality bound on the argument keeps the field conversions from
/// failing.
#[verifier::external_body]
pub fn bn254_double(p: &BnAffinePoint) -> (r: BnAffinePoint)
    requires
        point_canonical(p@),
    ensures
        r@ == double_of(p@),
        point_canonical(r@),
{
    let pa = ark_bn254::G1Affine::new_unchecked(
        ark_ff::BigInt(p.0).into(),
        ark_ff::BigInt(p.1).into(),
    );
    let ra = pa.into_group().double().into_affine();
    BnAffinePoint(ra.x.into_bigint().0, ra.y.into_bigint().0)
}

/// The curve equation of BN254 G1, `y^2 = x^3 + 3`, over the canonical
/// representatives of the two coordinates.
pub open spec fn on_curve(p: Seq<u64>) -> bool {
    (limbs4_val(point_y(p)) * limbs4_val(point_y(p))) % q_val() == (limbs4_val(point_x(p))
        * limbs4_val(point_x(p)) * limbs4_val(point_x(p)) + 3) % q_val()
}

/// Relies on `ark_ec`'s short Weierstrass `is_on_curve`: it decides exactly
/// whether the coordinates satisfy the curve equation `y^2 = x^3 + 3`. The
/// canonicality bound on the argument keeps the field conversions from
/// failing.
#[verifier::external_body]
pub fn bn254_is_on_curve(p: &BnAffinePoint) -> (r: bool)
    requires
        point_canonical(p@),
    ensures
        r == on_curve(p@),
{
    let pa = ark_bn254::G1Affine::new_unchecked(
        ark_ff::BigInt(p.0).into(),
        ark_ff::BigInt(p.1).into(),
    );
    pa.is_on_curve()
}

/// Whether every point of the vector lies on the curve.
///
/// Decoding never checks curve membership; a caller that wants the check
/// pays for it here, separately and explicitly.
pub fn validate_points(points: &Vec<BnAffinePoint>) -> (r: bool)
    requires
        forall|i: int| 0 <= i < points@.len() ==> point_canonical(#[trigger] points@[i]@),
    ensures
        r == forall|i: int| 0 <= i < points@.len() ==> on_curve(#[trigger] points@[i]@),
{
    let n = points.len();
    for i in 0..n
        invariant
            n == points@.len(),
            forall|j: int| 0 <= j < points@.len() ==> point_canonical(#[trigger] points@[j]@),
            forall|j: int| 0 <= j < i ==> on_curve(#[trigger] points@[j]@),
    {
        if !bn254_is_on_curve(&points[i]) {
            return false;
        }
    }
    true
}

} // verus!
