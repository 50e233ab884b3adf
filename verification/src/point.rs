//! Curve points and scalars as plain limb values.
//!
//! A point is a pair of base-field coordinates, each held as four
//! little-endian 64-bit limbs of its canonical representative; the point at
//! infinity is never represented (the multi-scalar multiplication skips the
//! pairs that would need it). A scalar is a scalar-field element held the
//! same way and consumed only through its little-endian bit decomposition.

use vstd::prelude::*;
use crate::limbs::{
    limbs4_val, q_val, r_val, limbs4_lt, Q_LIMB_0, Q_LIMB_1, Q_LIMB_2, Q_LIMB_3, R_LIMB_0,
    R_LIMB_1, R_LIMB_2, R_LIMB_3,
};

verus! {

/// A point on the BN254 curve in affine coordinates: field 0 holds the four
/// little-endian limbs of `x`, field 1 those of `y`.
#[derive(Clone, Copy, Debug, PartialEq, Eq)]
pub struct BnAffinePoint(pub [u64; 4], pub [u64; 4]);

/// A BN254 scalar-field element as four little-endian 64-bit limbs.
#[derive(Clone, Copy, Debug, PartialEq, Eq)]
pub struct BnScalar(pub [u64; 4]);

impl View for BnAffinePoint {
    type V = Seq<u64>;

    /// The point as one limb sequence: the four `x` limbs then the four `y` limbs.
    open spec fn view(&self) -> Seq<u64> {
        self.0@ + self.1@
    }
}

impl View for BnScalar {
    type V = Seq<u64>;

    open spec fn view(&self) -> Seq<u64> {
        self.0@
    }
}

/// The `x` coordinate of a point view.
pub open spec fn point_x(p: Seq<u64>) -> Seq<u64> {
    p.subrange(0, 4)
}

/// The `y` coordinate of a point view.
pub open spec fn point_y(p: Seq<u64>) -> Seq<u64> {
    p.subrange(4, 8)
}

/// A coordinate is canonical when its four limbs hold the representative
/// reduced below the base-field modulus.
pub open spec fn coord_canonical(s: Seq<u64>) -> bool {
    s.len() == 4 && limbs4_val(s) < q_val()
}

/// A point view is well formed when it has eight limbs and both coordinates
/// are canonical.
pub open spec fn point_canonical(p: Seq<u64>) -> bool {
    p.len() == 8 && coord_canonical(point_x(p)) && coord_canonical(point_y(p))
}

/// A scalar view is canonical when its value is reduced below the
/// scalar-field modulus.
pub open spec fn scalar_canonical(s: Seq<u64>) -> bool {
    s.len() == 4 && limbs4_val(s) < r_val()
}

/// A scalar view is zero when it stands for the integer zero.
pub open spec fn scalar_is_zero(s: Seq<u64>) -> bool {
    limbs4_val(s) == 0
}

/// Bit `i` of a scalar view, little-endian: bit 0 is the least significant
/// bit of the least limb.
pub open spec fn scalar_bit(s: Seq<u64>, i: int) -> bool {
    (s[i / 64] >> ((i % 64) as u64)) & 1 == 1
}

impl BnAffinePoint {
    /// Both coordinates are reduced below the base-field modulus.
    pub fn is_canonical(&self) -> (r: bool)
        ensures
            r == point_canonical(self@),
    {
        proof {
            crate::limbs::lemma_modulus_limbs();
            assert(point_x(self@) =~= self.0@);
            assert(point_y(self@) =~= self.1@);
        }
        limbs4_lt(&self.0, Q_LIMB_0, Q_LIMB_1, Q_LIMB_2, Q_LIMB_3) && limbs4_lt(
            &self.1,
            Q_LIMB_0,
            Q_LIMB_1,
            Q_LIMB_2,
            Q_LIMB_3,
        )
    }
}

impl BnScalar {
    /// The scalar is reduced below the scalar-field modulus.
    pub fn is_canonical(&self) -> (r: bool)
        ensures
            r == scalar_canonical(self@),
    {
        proof {
            crate::limbs::lemma_modulus_limbs();
        }
        limbs4_lt(&self.0, R_LIMB_0, R_LIMB_1, R_LIMB_2, R_LIMB_3)
    }

    /// The scalar stands for the integer zero.
    pub fn is_zero(&self) -> (r: bool)
        ensures
            r == scalar_is_zero(self@),
    {
        self.0[0] == 0 && self.0[1] == 0 && self.0[2] == 0 && self.0[3] == 0
    }

    /// Bit `i` of the scalar, little-endian.
    pub fn bit(&self, i: usize) -> (r: bool)
        requires
            i < 256,
        ensures
            r == scalar_bit(self@, i as int),
    {
        (self.0[i / 64] >> ((i % 64) as u64)) & 1 == 1
    }
}

/// A nonzero 64-bit limb has a set bit.
proof fn lemma_nonzero_u64_has_bit(x: u64)
    requires
        x != 0,
    ensures
        exists|sh: u64| sh < 64 && #[trigger] ((x >> sh) & 1) == 1,
    decreases x,
{
    if x & 1 == 1 {
        assert((x >> 0u64) & 1 == 1) by (bit_vector)
            requires
                x & 1 == 1,
        ;
    } else {
        assert(x >> 1u64 != 0 && x >> 1u64 < x) by (bit_vector)
            requires
                x != 0 && x & 1 != 1,
        ;
        lemma_nonzero_u64_has_bit(x >> 1u64);
        let sh = choose|sh: u64| sh < 64 && #[trigger] (((x >> 1u64) >> sh) & 1) == 1;
        let sh1: u64 = (sh + 1) as u64;
        if sh >= 63 {
            assert(((x >> 1u64) >> sh) & 1 == 0) by (bit_vector)
                requires
                    sh >= 63,
            ;
        } else {
            assert((x >> sh1) & 1 == 1) by (bit_vector)
                requires
                    sh < 63 && sh1 == sh + 1 && ((x >> 1u64) >> sh) & 1 == 1,
            ;
        }
    }
}

/// A scalar whose value is not zero has a set bit among its 256 bits.
pub proof fn lemma_nonzero_scalar_has_bit(s: Seq<u64>)
    requires
        s.len() == 4,
        !scalar_is_zero(s),
    ensures
        exists|i: int| 0 <= i < 256 && #[trigger] scalar_bit(s, i),
{
    if s[0] == 0 && s[1] == 0 && s[2] == 0 && s[3] == 0 {
        assert(limbs4_val(s) == 0);
    }
    let j: int = if s[0] != 0 {
        0
    } else if s[1] != 0 {
        1
    } else if s[2] != 0 {
        2
    } else {
        3
    };
    lemma_nonzero_u64_has_bit(s[j]);
    let sh = choose|sh: u64| sh < 64 && #[trigger] ((s[j] >> sh) & 1) == 1;
    let i = 64 * j + sh;
    assert(i / 64 == j && i % 64 == sh);
    assert(scalar_bit(s, i));
}

} // verus!
