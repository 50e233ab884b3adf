//! The wire format of point and scalar vectors.
//!
//! Each vector is a count prefix (eight little-endian bytes) followed by
//! fixed-width elements. A scalar element is its 32 little-endian bytes. A
//! point element is the 32 bytes of `x` followed by the 32 bytes of `y`,
//! where the top bit of the last byte is set when `y` is above `(q - 1) / 2`
//! (the sign flag of the canonical uncompressed affine encoding) and the
//! next bit down marks the point at infinity, which this core never
//! represents. Decoding masks the two flag bits of `y` back out, rejects an
//! infinity mark, and rejects any coordinate or scalar at or above its
//! field's modulus; it does not check curve membership.

use vstd::prelude::*;
use crate::limbs::{
    bytes8_val, half_q_val, limbs4_val, q_val, r_val, read_u64_le, u64_le_bytes, write_u64_le,
    limbs4_lt, limbs4_gt, HALF_Q_LIMB_0, HALF_Q_LIMB_1, HALF_Q_LIMB_2, HALF_Q_LIMB_3, Q_LIMB_0,
    Q_LIMB_1, Q_LIMB_2, Q_LIMB_3, R_LIMB_0, R_LIMB_1, R_LIMB_2, R_LIMB_3,
};
use crate::point::{
    coord_canonical, point_canonical, point_x, point_y, scalar_canonical, BnAffinePoint, BnScalar,
};
use crate::msm::{point_views, scalar_views};

verus! {

/// Why a vector failed to decode.
#[derive(Clone, Copy, Debug, PartialEq, Eq, Structural)]
pub enum DecodeError {
    /// The byte count does not match the count prefix.
    BadLength,
    /// An element is out of range or carries an unsupported flag.
    BadElement,
}

/// The 32 little-endian bytes of four little-endian limbs.
pub open spec fn limbs4_le_bytes(s: Seq<u64>) -> Seq<u8> {
    u64_le_bytes(s[0]) + u64_le_bytes(s[1]) + u64_le_bytes(s[2]) + u64_le_bytes(s[3])
}

/// The `y` limbs with the sign flag set in the top bit when `y` is above
/// `(q - 1) / 2`.
pub open spec fn y_flagged(y: Seq<u64>) -> Seq<u64> {
    if limbs4_val(y) > half_q_val() {
        y.update(3, y[3] | 0x8000000000000000)
    } else {
        y
    }
}

/// The 64-byte element encoding of a point view.
pub open spec fn point_bytes(p: Seq<u64>) -> Seq<u8> {
    limbs4_le_bytes(point_x(p)) + limbs4_le_bytes(y_flagged(point_y(p)))
}

/// The element encodings of the first `n` point views, concatenated.
pub open spec fn points_body(ps: Seq<Seq<u64>>, n: nat) -> Seq<u8>
    decreases n,
{
    if n == 0 {
        Seq::empty()
    } else {
        points_body(ps, (n - 1) as nat) + point_bytes(ps[n - 1])
    }
}

/// The full encoding of a point vector: count prefix, then elements.
pub open spec fn points_bytes(ps: Seq<Seq<u64>>) -> Seq<u8> {
    u64_le_bytes(ps.len() as u64) + points_body(ps, ps.len())
}

/// The 32-byte element encoding of a scalar view.
pub open spec fn scalar_bytes(s: Seq<u64>) -> Seq<u8> {
    limbs4_le_bytes(s)
}

/// The element encodings of the first `n` scalar views, concatenated.
pub open spec fn scalars_body(ss: Seq<Seq<u64>>, n: nat) -> Seq<u8>
    decreases n,
{
    if n == 0 {
        Seq::empty()
    } else {
        scalars_body(ss, (n - 1) as nat) + scalar_bytes(ss[n - 1])
    }
}

/// The full encoding of a scalar vector: count prefix, then elements.
pub open spec fn scalars_bytes(ss: Seq<Seq<u64>>) -> Seq<u8> {
    u64_le_bytes(ss.len() as u64) + scalars_body(ss, ss.len())
}

/// The limb held by the eight bytes at `off`.
pub open spec fn read_limb(b: Seq<u8>, off: int) -> u64 {
    bytes8_val(b.subrange(off, off + 8)) as u64
}

/// The four limbs held by the 32 bytes at `off`.
pub open spec fn read_limbs4(b: Seq<u8>, off: int) -> Seq<u64> {
    seq![read_limb(b, off), read_limb(b, off + 8), read_limb(b, off + 16), read_limb(b, off + 24)]
}

/// The count prefix of an encoded vector.
pub open spec fn prefix_count(b: Seq<u8>) -> int {
    bytes8_val(b.subrange(0, 8))
}

/// The byte count matches the count prefix for elements of `elem_size` bytes.
pub open spec fn length_wf(b: Seq<u8>, elem_size: int) -> bool {
    b.len() >= 8 && b.len() == 8 + elem_size * prefix_count(b)
}

/// The raw `y` limbs of point element `i`, flags still in place.
pub open spec fn raw_point_y(b: Seq<u8>, i: int) -> Seq<u64> {
    read_limbs4(b, 8 + 64 * i + 32)
}

/// The decoded view of point element `i`: the `x` limbs, then the `y`
/// limbs with the two flag bits masked out.
pub open spec fn parsed_point(b: Seq<u8>, i: int) -> Seq<u64> {
    read_limbs4(b, 8 + 64 * i) + raw_point_y(b, i).update(
        3,
        raw_point_y(b, i)[3] & 0x3fffffffffffffff,
    )
}

/// Point element `i` decodes: both coordinates in range, no infinity mark.
pub open spec fn point_elem_wf(b: Seq<u8>, i: int) -> bool {
    &&& limbs4_val(read_limbs4(b, 8 + 64 * i)) < q_val()
    &&& (raw_point_y(b, i)[3] >> 62) & 1 == 0
    &&& limbs4_val(raw_point_y(b, i).update(3, raw_point_y(b, i)[3] & 0x3fffffffffffffff))
        < q_val()
}

/// The whole point vector decodes.
pub open spec fn points_wf(b: Seq<u8>) -> bool {
    length_wf(b, 64) && forall|i: int| 0 <= i < prefix_count(b) ==> point_elem_wf(b, i)
}

/// The point views a well-formed encoding holds.
pub open spec fn parsed_points(b: Seq<u8>) -> Seq<Seq<u64>> {
    Seq::new(prefix_count(b) as nat, |i: int| parsed_point(b, i))
}

/// The decoded view of scalar element `i`.
pub open spec fn parsed_scalar(b: Seq<u8>, i: int) -> Seq<u64> {
    read_limbs4(b, 8 + 32 * i)
}

/// Scalar element `i` decodes: its value is in the scalar field's range.
pub open spec fn scalar_elem_wf(b: Seq<u8>, i: int) -> bool {
    limbs4_val(parsed_scalar(b, i)) < r_val()
}

/// The whole scalar vector decodes.
pub open spec fn scalars_wf(b: Seq<u8>) -> bool {
    length_wf(b, 32) && forall|i: int| 0 <= i < prefix_count(b) ==> scalar_elem_wf(b, i)
}

/// The scalar views a well-formed encoding holds.
pub open spec fn parsed_scalars(b: Seq<u8>) -> Seq<Seq<u64>> {
    Seq::new(prefix_count(b) as nat, |i: int| parsed_scalar(b, i))
}

/// An ordered vector of curve points, as it crosses the boundary.
#[derive(Clone, Debug)]
pub struct VecG1Affine(pub Vec<BnAffinePoint>);

/// An ordered vector of scalars, as it crosses the boundary.
#[derive(Clone, Debug)]
pub struct VecScalarField(pub Vec<BnScalar>);

/// Appends the 64-byte element encoding of one point.
fn write_point(out: &mut Vec<u8>, p: &BnAffinePoint)
    ensures
        final(out)@ == old(out)@ + point_bytes(p@),
{
    write_u64_le(out, p.0[0]);
    write_u64_le(out, p.0[1]);
    write_u64_le(out, p.0[2]);
    write_u64_le(out, p.0[3]);
    write_u64_le(out, p.1[0]);
    write_u64_le(out, p.1[1]);
    write_u64_le(out, p.1[2]);
    let high = limbs4_gt(&p.1, HALF_Q_LIMB_0, HALF_Q_LIMB_1, HALF_Q_LIMB_2, HALF_Q_LIMB_3);
    let l3: u64 = if high {
        p.1[3] | 0x8000000000000000
    } else {
        p.1[3]
    };
    write_u64_le(out, l3);
    proof {
        crate::limbs::lemma_modulus_limbs();
        assert(point_x(p@) =~= p.0@);
        assert(point_y(p@) =~= p.1@);
        assert(y_flagged(p.1@) =~= seq![p.1@[0], p.1@[1], p.1@[2], l3]);
        assert(out@ =~= old(out)@ + point_bytes(p@));
    }
}

/// Appends the 32-byte element encoding of one scalar.
fn write_scalar(out: &mut Vec<u8>, s: &BnScalar)
    ensures
        final(out)@ == old(out)@ + scalar_bytes(s@),
{
    write_u64_le(out, s.0[0]);
    write_u64_le(out, s.0[1]);
    write_u64_le(out, s.0[2]);
    write_u64_le(out, s.0[3]);
    assert(out@ =~= old(out)@ + scalar_bytes(s@));
}

impl VecG1Affine {
    /// Encodes the vector: count prefix, then each point's two coordinates
    /// with the sign flag on `y`.
    pub fn serialize(&self) -> (r: Vec<u8>)
        ensures
            r@ == points_bytes(point_views(self.0@)),
    {
        let ghost ps: Seq<Seq<u64>> = point_views(self.0@);
        let mut out: Vec<u8> = Vec::new();
        let n = self.0.len();
        write_u64_le(&mut out, n as u64);
        let mut i: usize = 0;
        while i < n
            invariant
                i <= n,
                n == self.0@.len(),
                ps == point_views(self.0@),
                out@ == u64_le_bytes(n as u64) + points_body(ps, i as nat),
            decreases n - i,
        {
            write_point(&mut out, &self.0[i]);
            assert(out@ =~= u64_le_bytes(n as u64) + points_body(ps, (i + 1) as nat));
            i = i + 1;
        }
        out
    }
}

impl VecG1Affine {
    /// Decodes a point vector, the exact inverse of `serialize` on
    /// canonically encoded input. Coordinates at or above the base-field
    /// modulus and the infinity mark are rejected; curve membership is
    /// deliberately not checked.
    pub fn deserialize(bytes: &[u8]) -> (r: Result<VecG1Affine, DecodeError>)
        ensures
            match r {
                Result::Ok(v) => points_wf(bytes@) && point_views(v.0@) == parsed_points(bytes@)
                    && forall|i: int|
                    0 <= i < v.0@.len() ==> point_canonical(#[trigger] v.0@[i]@),
                Result::Err(DecodeError::BadLength) => !length_wf(bytes@, 64),
                Result::Err(DecodeError::BadElement) => length_wf(bytes@, 64) && !points_wf(
                    bytes@,
                ),
            },
    {
        proof {
            crate::limbs::lemma_modulus_limbs();
        }
        if bytes.len() < 8 {
            return Result::Err(DecodeError::BadLength);
        }
        let cnt = read_u64_le(bytes, 0);
        let rest = bytes.len() - 8;
        if rest % 64 != 0 || (rest / 64) as u64 != cnt {
            return Result::Err(DecodeError::BadLength);
        }
        let n: usize = rest / 64;
        assert(length_wf(bytes@, 64));
        let mut out: Vec<BnAffinePoint> = Vec::new();
        let mut i: usize = 0;
        while i < n
            invariant
                i <= n,
                n == prefix_count(bytes@),
                length_wf(bytes@, 64),
                bytes@.len() == 8 + 64 * n,
                bytes@.len() <= usize::MAX,
                out@.len() == i,
                forall|j: int| 0 <= j < i ==> point_elem_wf(bytes@, j),
                forall|j: int| 0 <= j < i ==> #[trigger] out@[j]@ == parsed_point(bytes@, j),
                forall|j: int| 0 <= j < i ==> point_canonical(#[trigger] out@[j]@),
            decreases n - i,
        {
            let base = 8 + 64 * i;
            let x = [
                read_u64_le(bytes, base),
                read_u64_le(bytes, base + 8),
                read_u64_le(bytes, base + 16),
                read_u64_le(bytes, base + 24),
            ];
            assert(x@ =~= read_limbs4(bytes@, base as int));
            if !limbs4_lt(&x, Q_LIMB_0, Q_LIMB_1, Q_LIMB_2, Q_LIMB_3) {
                assert(!point_elem_wf(bytes@, i as int));
                return Result::Err(DecodeError::BadElement);
            }
            let y0 = read_u64_le(bytes, base + 32);
            let y1 = read_u64_le(bytes, base + 40);
            let y2 = read_u64_le(bytes, base + 48);
            let y3 = read_u64_le(bytes, base + 56);
            assert(raw_point_y(bytes@, i as int) =~= seq![y0, y1, y2, y3]);
            if (y3 >> 62) & 1 == 1 {
                assert(!point_elem_wf(bytes@, i as int));
                return Result::Err(DecodeError::BadElement);
            }
            assert((y3 >> 62) & 1 == 0) by (bit_vector)
                requires
                    !((y3 >> 62) & 1 == 1),
            ;
            let y = [y0, y1, y2, y3 & 0x3fffffffffffffff];
            assert(y@ =~= raw_point_y(bytes@, i as int).update(
                3,
                raw_point_y(bytes@, i as int)[3] & 0x3fffffffffffffff,
            ));
            if !limbs4_lt(&y, Q_LIMB_0, Q_LIMB_1, Q_LIMB_2, Q_LIMB_3) {
                assert(!point_elem_wf(bytes@, i as int));
                return Result::Err(DecodeError::BadElement);
            }
            assert(point_elem_wf(bytes@, i as int));
            let p = BnAffinePoint(x, y);
            assert(p@ =~= parsed_point(bytes@, i as int));
            assert(point_x(p@) =~= x@);
            assert(point_y(p@) =~= y@);
            out.push(p);
            i = i + 1;
        }
        assert(point_views(out@) =~= parsed_points(bytes@));
        Result::Ok(VecG1Affine(out))
    }
}

impl VecScalarField {
    /// Encodes the vector: count prefix, then each scalar's 32 bytes.
    pub fn serialize(&self) -> (r: Vec<u8>)
        ensures
            r@ == scalars_bytes(scalar_views(self.0@)),
    {
        let ghost ss: Seq<Seq<u64>> = scalar_views(self.0@);
        let mut out: Vec<u8> = Vec::new();
        let n = self.0.len();
        write_u64_le(&mut out, n as u64);
        let mut i: usize = 0;
        while i < n
            invariant
                i <= n,
                n == self.0@.len(),
                ss == scalar_views(self.0@),
                out@ == u64_le_bytes(n as u64) + scalars_body(ss, i as nat),
            decreases n - i,
        {
            write_scalar(&mut out, &self.0[i]);
            assert(out@ =~= u64_le_bytes(n as u64) + scalars_body(ss, (i + 1) as nat));
            i = i + 1;
        }
        out
    }

    /// Decodes a scalar vector, the exact inverse of `serialize` on
    /// canonically encoded input. Scalars at or above the scalar-field
    /// modulus are rejected.
    pub fn deserialize(bytes: &[u8]) -> (r: Result<VecScalarField, DecodeError>)
        ensures
            match r {
                Result::Ok(v) => scalars_wf(bytes@) && scalar_views(v.0@) == parsed_scalars(
                    bytes@,
                ) && forall|i: int|
                    0 <= i < v.0@.len() ==> scalar_canonical(#[trigger] v.0@[i]@),
                Result::Err(DecodeError::BadLength) => !length_wf(bytes@, 32),
                Result::Err(DecodeError::BadElement) => length_wf(bytes@, 32) && !scalars_wf(
                    bytes@,
                ),
            },
    {
        proof {
            crate::limbs::lemma_modulus_limbs();
        }
        if bytes.len() < 8 {
            return Result::Err(DecodeError::BadLength);
        }
        let cnt = read_u64_le(bytes, 0);
        let rest = bytes.len() - 8;
        if rest % 32 != 0 || (rest / 32) as u64 != cnt {
            return Result::Err(DecodeError::BadLength);
        }
        let n: usize = rest / 32;
        assert(length_wf(bytes@, 32));
        let mut out: Vec<BnScalar> = Vec::new();
        let mut i: usize = 0;
        while i < n
            invariant
                i <= n,
                n == prefix_count(bytes@),
                length_wf(bytes@, 32),
                bytes@.len() == 8 + 32 * n,
                bytes@.len() <= usize::MAX,
                out@.len() == i,
                forall|j: int| 0 <= j < i ==> scalar_elem_wf(bytes@, j),
                forall|j: int| 0 <= j < i ==> #[trigger] out@[j]@ == parsed_scalar(bytes@, j),
                forall|j: int| 0 <= j < i ==> scalar_canonical(#[trigger] out@[j]@),
            decreases n - i,
        {
            let base = 8 + 32 * i;
            let s = [
                read_u64_le(bytes, base),
                read_u64_le(bytes, base + 8),
                read_u64_le(bytes, base + 16),
                read_u64_le(bytes, base + 24),
            ];
            assert(s@ =~= parsed_scalar(bytes@, i as int));
            if !limbs4_lt(&s, R_LIMB_0, R_LIMB_1, R_LIMB_2, R_LIMB_3) {
                assert(!scalar_elem_wf(bytes@, i as int));
                return Result::Err(DecodeError::BadElement);
            }
            assert(scalar_elem_wf(bytes@, i as int));
            out.push(BnScalar(s));
            i = i + 1;
        }
        assert(scalar_views(out@) =~= parsed_scalars(bytes@));
        Result::Ok(VecScalarField(out))
    }
}

proof fn lemma_points_body_len(ps: Seq<Seq<u64>>, n: nat)
    ensures
        points_body(ps, n).len() == 64 * n,
    decreases n,
{
    if n > 0 {
        lemma_points_body_len(ps, (n - 1) as nat);
    }
}

proof fn lemma_scalars_body_len(ss: Seq<Seq<u64>>, n: nat)
    ensures
        scalars_body(ss, n).len() == 32 * n,
    decreases n,
{
    if n > 0 {
        lemma_scalars_body_len(ss, (n - 1) as nat);
    }
}

proof fn lemma_points_body_elem(ps: Seq<Seq<u64>>, n: nat, i: int)
    requires
        0 <= i < n,
    ensures
        points_body(ps, n).subrange(64 * i, 64 * i + 64) == point_bytes(ps[i]),
    decreases n,
{
    lemma_points_body_len(ps, n);
    lemma_points_body_len(ps, (n - 1) as nat);
    if i == n - 1 {
        assert(points_body(ps, n).subrange(64 * i, 64 * i + 64) =~= point_bytes(ps[i]));
    } else {
        lemma_points_body_elem(ps, (n - 1) as nat, i);
        assert(points_body(ps, n).subrange(64 * i, 64 * i + 64) =~= points_body(
            ps,
            (n - 1) as nat,
        ).subrange(64 * i, 64 * i + 64));
    }
}

proof fn lemma_scalars_body_elem(ss: Seq<Seq<u64>>, n: nat, i: int)
    requires
        0 <= i < n,
    ensures
        scalars_body(ss, n).subrange(32 * i, 32 * i + 32) == scalar_bytes(ss[i]),
    decreases n,
{
    lemma_scalars_body_len(ss, n);
    lemma_scalars_body_len(ss, (n - 1) as nat);
    if i == n - 1 {
        assert(scalars_body(ss, n).subrange(32 * i, 32 * i + 32) =~= scalar_bytes(ss[i]));
    } else {
        lemma_scalars_body_elem(ss, (n - 1) as nat, i);
        assert(scalars_body(ss, n).subrange(32 * i, 32 * i + 32) =~= scalars_body(
            ss,
            (n - 1) as nat,
        ).subrange(32 * i, 32 * i + 32));
    }
}

/// The most significant limb of a canonical coordinate leaves the two flag
/// bits free.
proof fn lemma_canonical_top_limb(y: Seq<u64>)
    requires
        coord_canonical(y),
    ensures
        y[3] < 0x4000000000000000,
{
}

#[verifier::rlimit(100)]
#[verifier::spinoff_prover]
proof fn lemma_point_elem_x(b: Seq<u8>, ps: Seq<Seq<u64>>, i: int)
    requires
        0 <= i < ps.len(),
        ps[i].len() == 8,
        b == points_bytes(ps),
    ensures
        read_limbs4(b, 8 + 64 * i) == point_x(ps[i]),
{
    let p = ps[i];
    let x = point_x(p);
    let pb = point_bytes(p);
    lemma_points_body_len(ps, ps.len());
    lemma_points_body_elem(ps, ps.len(), i);
    let base = 8 + 64 * i;
    assert(b.subrange(base, base + 8) == u64_le_bytes(x[0])) by {
        assert(b.subrange(base, base + 8) =~= pb.subrange(0, 8));
        assert(pb.subrange(0, 8) =~= u64_le_bytes(x[0]));
    }
    assert(b.subrange(base + 8, base + 16) == u64_le_bytes(x[1])) by {
        assert(b.subrange(base + 8, base + 16) =~= pb.subrange(8, 16));
        assert(pb.subrange(8, 16) =~= u64_le_bytes(x[1]));
    }
    assert(b.subrange(base + 16, base + 24) == u64_le_bytes(x[2])) by {
        assert(b.subrange(base + 16, base + 24) =~= pb.subrange(16, 24));
        assert(pb.subrange(16, 24) =~= u64_le_bytes(x[2]));
    }
    assert(b.subrange(base + 24, base + 32) == u64_le_bytes(x[3])) by {
        assert(b.subrange(base + 24, base + 32) =~= pb.subrange(24, 32));
        assert(pb.subrange(24, 32) =~= u64_le_bytes(x[3]));
    }
    assert(read_limbs4(b, base) == x) by {
        crate::limbs::lemma_u64_le_bytes_val(x[0]);
        crate::limbs::lemma_u64_le_bytes_val(x[1]);
        crate::limbs::lemma_u64_le_bytes_val(x[2]);
        crate::limbs::lemma_u64_le_bytes_val(x[3]);
        assert(read_limbs4(b, base) =~= x);
    }
}

#[verifier::rlimit(100)]
#[verifier::spinoff_prover]
proof fn lemma_point_elem_raw_y(b: Seq<u8>, ps: Seq<Seq<u64>>, i: int)
    requires
        0 <= i < ps.len(),
        ps[i].len() == 8,
        b == points_bytes(ps),
    ensures
        raw_point_y(b, i) == y_flagged(point_y(ps[i])),
{
    let p = ps[i];
    let yf = y_flagged(point_y(p));
    let pb = point_bytes(p);
    lemma_points_body_len(ps, ps.len());
    lemma_points_body_elem(ps, ps.len(), i);
    let base = 8 + 64 * i;
    assert(b.subrange(base + 32, base + 40) == u64_le_bytes(yf[0])) by {
        assert(b.subrange(base + 32, base + 40) =~= pb.subrange(32, 40));
        assert(pb.subrange(32, 40) =~= u64_le_bytes(yf[0]));
    }
    assert(b.subrange(base + 40, base + 48) == u64_le_bytes(yf[1])) by {
        assert(b.subrange(base + 40, base + 48) =~= pb.subrange(40, 48));
        assert(pb.subrange(40, 48) =~= u64_le_bytes(yf[1]));
    }
    assert(b.subrange(base + 48, base + 56) == u64_le_bytes(yf[2])) by {
        assert(b.subrange(base + 48, base + 56) =~= pb.subrange(48, 56));
        assert(pb.subrange(48, 56) =~= u64_le_bytes(yf[2]));
    }
    assert(b.subrange(base + 56, base + 64) == u64_le_bytes(yf[3])) by {
        assert(b.subrange(base + 56, base + 64) =~= pb.subrange(56, 64));
        assert(pb.subrange(56, 64) =~= u64_le_bytes(yf[3]));
    }
    assert(raw_point_y(b, i) == yf) by {
        crate::limbs::lemma_u64_le_bytes_val(yf[0]);
        crate::limbs::lemma_u64_le_bytes_val(yf[1]);
        crate::limbs::lemma_u64_le_bytes_val(yf[2]);
        crate::limbs::lemma_u64_le_bytes_val(yf[3]);
        assert(raw_point_y(b, i) =~= yf);
    }
}

/// Encoding then decoding one point element recovers the point.
proof fn lemma_point_elem_round_trip(b: Seq<u8>, ps: Seq<Seq<u64>>, i: int)
    requires
        0 <= i < ps.len(),
        forall|j: int| 0 <= j < ps.len() ==> point_canonical(#[trigger] ps[j]),
        b == points_bytes(ps),
    ensures
        point_elem_wf(b, i),
        parsed_point(b, i) == ps[i],
{
    let p = ps[i];
    let y = point_y(p);
    let yf = y_flagged(y);
    lemma_point_elem_x(b, ps, i);
    lemma_point_elem_raw_y(b, ps, i);
    let y3 = y[3];
    lemma_canonical_top_limb(y);
    assert(((y3 | 0x8000000000000000) & 0x3fffffffffffffff) == y3 && (y3 & 0x3fffffffffffffff)
        == y3 && (((y3 | 0x8000000000000000) >> 62) & 1) == 0 && ((y3 >> 62) & 1) == 0)
        by (bit_vector)
        requires
            y3 < 0x4000000000000000,
    ;
    assert(yf[3] == y3 || yf[3] == (y3 | 0x8000000000000000));
    assert(yf.update(3, yf[3] & 0x3fffffffffffffff) =~= y);
    assert(parsed_point(b, i) =~= p);
}

/// Encoding then decoding one scalar element recovers the scalar.
#[verifier::rlimit(100)]
#[verifier::spinoff_prover]
proof fn lemma_scalar_elem_round_trip(b: Seq<u8>, ss: Seq<Seq<u64>>, i: int)
    requires
        0 <= i < ss.len(),
        forall|j: int| 0 <= j < ss.len() ==> scalar_canonical(#[trigger] ss[j]),
        b == scalars_bytes(ss),
    ensures
        scalar_elem_wf(b, i),
        parsed_scalar(b, i) == ss[i],
{
    let s = ss[i];
    let sb = scalar_bytes(s);
    lemma_scalars_body_len(ss, ss.len());
    lemma_scalars_body_elem(ss, ss.len(), i);
    let base = 8 + 32 * i;
    assert(b.subrange(base, base + 8) =~= sb.subrange(0, 8));
    assert(b.subrange(base + 8, base + 16) =~= sb.subrange(8, 16));
    assert(b.subrange(base + 16, base + 24) =~= sb.subrange(16, 24));
    assert(b.subrange(base + 24, base + 32) =~= sb.subrange(24, 32));
    assert(sb.subrange(0, 8) =~= u64_le_bytes(s[0]));
    assert(sb.subrange(8, 16) =~= u64_le_bytes(s[1]));
    assert(sb.subrange(16, 24) =~= u64_le_bytes(s[2]));
    assert(sb.subrange(24, 32) =~= u64_le_bytes(s[3]));
    crate::limbs::lemma_u64_le_bytes_val(s[0]);
    crate::limbs::lemma_u64_le_bytes_val(s[1]);
    crate::limbs::lemma_u64_le_bytes_val(s[2]);
    crate::limbs::lemma_u64_le_bytes_val(s[3]);
    assert(parsed_scalar(b, i) =~= s);
}

/// Round trip of a point vector: decoding an encoding recovers exactly the
/// points that were encoded, for every vector of canonical points.
pub proof fn lemma_points_round_trip(ps: Seq<Seq<u64>>)
    requires
        ps.len() <= u64::MAX,
        forall|j: int| 0 <= j < ps.len() ==> point_canonical(#[trigger] ps[j]),
    ensures
        points_wf(points_bytes(ps)),
        parsed_points(points_bytes(ps)) == ps,
{
    let b = points_bytes(ps);
    lemma_points_body_len(ps, ps.len());
    assert(b.subrange(0, 8) =~= u64_le_bytes(ps.len() as u64));
    crate::limbs::lemma_u64_le_bytes_val(ps.len() as u64);
    assert(prefix_count(b) == ps.len());
    assert forall|i: int| 0 <= i < prefix_count(b) implies point_elem_wf(b, i) by {
        lemma_point_elem_round_trip(b, ps, i);
    }
    assert forall|i: int| 0 <= i < prefix_count(b) implies parsed_points(b)[i] == ps[i] by {
        lemma_point_elem_round_trip(b, ps, i);
    }
    assert(parsed_points(b) =~= ps);
}

/// Round trip of a scalar vector: decoding an encoding recovers exactly the
/// scalars that were encoded, for every vector of canonical scalars.
pub proof fn lemma_scalars_round_trip(ss: Seq<Seq<u64>>)
    requires
        ss.len() <= u64::MAX,
        forall|j: int| 0 <= j < ss.len() ==> scalar_canonical(#[trigger] ss[j]),
    ensures
        scalars_wf(scalars_bytes(ss)),
        parsed_scalars(scalars_bytes(ss)) == ss,
{
    let b = scalars_bytes(ss);
    lemma_scalars_body_len(ss, ss.len());
    assert(b.subrange(0, 8) =~= u64_le_bytes(ss.len() as u64));
    crate::limbs::lemma_u64_le_bytes_val(ss.len() as u64);
    assert(prefix_count(b) == ss.len());
    assert forall|i: int| 0 <= i < prefix_count(b) implies scalar_elem_wf(b, i) by {
        lemma_scalar_elem_round_trip(b, ss, i);
    }
    assert forall|i: int| 0 <= i < prefix_count(b) implies parsed_scalars(b)[i] == ss[i] by {
        lemma_scalar_elem_round_trip(b, ss, i);
    }
    assert(parsed_scalars(b) =~= ss);
}

} // verus!
