//! The multi-scalar multiplication engine.
//!
//! Each (point, scalar) pair is multiplied by double-and-add over the
//! scalar's little-endian bits, and the per-pair results are folded into a
//! running total with one addition per pair. Pairs with a zero scalar are
//! skipped, so the point at infinity never has to be represented. With the
//! two group operations abstract (`add_of`, `double_of`), the specification
//! pins the exact combination of doublings and additions the engine
//! performs; that this combination equals the group-theoretic sum is a
//! property of the backend's arithmetic, checked against an independent
//! implementation by the test suite.

use vstd::prelude::*;
use crate::group::{add_of, bn254_add, bn254_double, double_of};
use crate::point::{
    point_canonical, scalar_bit, scalar_is_zero, BnAffinePoint, BnScalar,
    lemma_nonzero_scalar_has_bit,
};

verus! {

/// Why a multi-scalar multiplication was rejected.
#[derive(Clone, Copy, Debug, PartialEq, Eq, Structural)]
pub enum MsmError {
    /// The points vector and the scalars vector have different lengths.
    LengthMismatch,
    /// Every scalar is zero (an empty input falls under this case too):
    /// no pair can seed the accumulator, so the input is rejected rather
    /// than answered with an unrepresentable identity point.
    ZeroScalarVector,
}

/// `k` successive doublings of `p`.
pub open spec fn pow2_of(k: nat, p: Seq<u64>) -> Seq<u64>
    decreases k,
{
    if k == 0 {
        p
    } else {
        double_of(pow2_of((k - 1) as nat, p))
    }
}

/// The per-pair accumulator after consuming the first `n` bits of `s`:
/// `None` while every bit seen so far is zero; once the first set bit at
/// index `k` seeds it with `k` doublings of `p`, each later set bit `j`
/// adds the `j`-fold doubling of `p`.
pub open spec fn mul_state(s: Seq<u64>, p: Seq<u64>, n: nat) -> Option<Seq<u64>>
    decreases n,
{
    if n == 0 {
        None::<Seq<u64>>
    } else {
        let prev = mul_state(s, p, (n - 1) as nat);
        if scalar_bit(s, n - 1) {
            match prev {
                Option::None => Option::Some(pow2_of((n - 1) as nat, p)),
                Option::Some(acc) => Option::Some(add_of(acc, pow2_of((n - 1) as nat, p))),
            }
        } else {
            prev
        }
    }
}

/// The double-and-add product of a scalar and a point, over all 256 bits.
/// Meaningful only for a nonzero scalar: a zero scalar never seeds the
/// accumulator, and the arbitrary fallback value is never exposed.
pub open spec fn scalar_mul_of(s: Seq<u64>, p: Seq<u64>) -> Seq<u64> {
    match mul_state(s, p, 256) {
        Option::Some(v) => v,
        Option::None => p,
    }
}

/// The running total after folding the first `n` pairs: `None` while every
/// scalar seen so far is zero; the first pair with a nonzero scalar seeds
/// it with that pair's product, and each later such pair is added in.
pub open spec fn msm_state(ps: Seq<Seq<u64>>, ss: Seq<Seq<u64>>, n: nat) -> Option<Seq<u64>>
    decreases n,
{
    if n == 0 {
        None::<Seq<u64>>
    } else {
        let prev = msm_state(ps, ss, (n - 1) as nat);
        if scalar_is_zero(ss[n - 1]) {
            prev
        } else {
            match prev {
                Option::None => Option::Some(scalar_mul_of(ss[n - 1], ps[n - 1])),
                Option::Some(acc) => Option::Some(
                    add_of(acc, scalar_mul_of(ss[n - 1], ps[n - 1])),
                ),
            }
        }
    }
}

/// The multi-scalar multiplication of equal-length pair sequences.
/// Meaningful only when some scalar is nonzero.
pub open spec fn msm_of(ps: Seq<Seq<u64>>, ss: Seq<Seq<u64>>) -> Seq<u64> {
    match msm_state(ps, ss, ps.len()) {
        Option::Some(v) => v,
        Option::None => Seq::empty(),
    }
}

/// The views of a vector of points.
pub open spec fn point_views(s: Seq<BnAffinePoint>) -> Seq<Seq<u64>> {
    s.map_values(|p: BnAffinePoint| p@)
}

/// The views of a vector of scalars.
pub open spec fn scalar_views(s: Seq<BnScalar>) -> Seq<Seq<u64>> {
    s.map_values(|x: BnScalar| x@)
}

/// Replaces `*p` with the double-and-add product of `s` and the original
/// point, doubling for every bit of `s` and adding on the set bits.
pub fn bn254_double_and_add(p: &mut BnAffinePoint, s: &BnScalar)
    requires
        point_canonical(old(p)@),
        !scalar_is_zero(s@),
    ensures
        final(p)@ == scalar_mul_of(s@, old(p)@),
        point_canonical(final(p)@),
{
    let ghost pv: Seq<u64> = p@;
    let mut t = *p;
    let mut q = *p;
    let mut seeded = false;
    let mut i: usize = 0;
    while i < 256
        invariant
            i <= 256,
            point_canonical(pv),
            point_canonical(t@),
            point_canonical(q@),
            s@.len() == 4,
            !scalar_is_zero(s@),
            !seeded ==> mul_state(s@, pv, i as nat) is None,
            !seeded ==> t@ == pow2_of(i as nat, pv),
            !seeded ==> forall|j: int| 0 <= j < i ==> !scalar_bit(s@, j),
            seeded ==> i >= 1,
            seeded ==> mul_state(s@, pv, i as nat) == Option::Some(q@),
            seeded ==> t@ == pow2_of((i - 1) as nat, pv),
        decreases 256 - i,
    {
        if !seeded {
            if s.bit(i) {
                q = t;
                seeded = true;
            } else {
                t = bn254_double(&t);
            }
        } else {
            t = bn254_double(&t);
            if s.bit(i) {
                q = bn254_add(&q, &t);
            }
        }
        i = i + 1;
    }
    proof {
        if !seeded {
            lemma_nonzero_scalar_has_bit(s@);
        }
    }
    *p = q;
}

/// Computes the multi-scalar multiplication of the two vectors using only
/// the two primitive group operations: one double-and-add per pair with a
/// nonzero scalar, folded with one addition per pair after the first.
///
/// The vectors must have the same length and hold at least one nonzero
/// scalar; either violation is rejected with its own error. Curve
/// membership of the points is deliberately not checked here (see
/// `validate_points`).
pub fn msm(points: &Vec<BnAffinePoint>, scalars: &Vec<BnScalar>) -> (r: Result<
    BnAffinePoint,
    MsmError,
>)
    requires
        forall|i: int| 0 <= i < points@.len() ==> point_canonical(#[trigger] points@[i]@),
    ensures
        match r {
            Result::Ok(v) => points@.len() == scalars@.len() && (exists|i: int|
                0 <= i < scalars@.len() && !scalar_is_zero(#[trigger] scalars@[i]@)) && v@
                == msm_of(point_views(points@), scalar_views(scalars@)) && point_canonical(v@),
            Result::Err(MsmError::LengthMismatch) => points@.len() != scalars@.len(),
            Result::Err(MsmError::ZeroScalarVector) => points@.len() == scalars@.len()
                && forall|i: int| 0 <= i < scalars@.len() ==> scalar_is_zero(
                #[trigger] scalars@[i]@,
            ),
        },
{
    if points.len() != scalars.len() {
        return Result::Err(MsmError::LengthMismatch);
    }
    let ghost pv: Seq<Seq<u64>> = point_views(points@);
    let ghost sv: Seq<Seq<u64>> = scalar_views(scalars@);
    let n = points.len();
    let mut acc: Option<BnAffinePoint> = None;
    let mut idx: usize = 0;
    while idx < n
        invariant
            idx <= n,
            n == points@.len(),
            n == scalars@.len(),
            pv == point_views(points@),
            sv == scalar_views(scalars@),
            forall|i: int| 0 <= i < points@.len() ==> point_canonical(#[trigger] points@[i]@),
            match acc {
                Option::Some(a) => msm_state(pv, sv, idx as nat) == Option::Some(a@)
                    && point_canonical(a@) && (exists|i: int|
                    0 <= i < idx && !scalar_is_zero(#[trigger] scalars@[i]@)),
                Option::None => msm_state(pv, sv, idx as nat) is None && forall|i: int|
                    0 <= i < idx ==> scalar_is_zero(#[trigger] scalars@[i]@),
            },
        decreases n - idx,
    {
        if !scalars[idx].is_zero() {
            let mut m = points[idx];
            bn254_double_and_add(&mut m, &scalars[idx]);
            acc = match acc {
                Option::None => Option::Some(m),
                Option::Some(a) => Option::Some(bn254_add(&a, &m)),
            };
        }
        idx = idx + 1;
    }
    match acc {
        Option::None => Result::Err(MsmError::ZeroScalarVector),
        Option::Some(a) => Result::Ok(a),
    }
}

proof fn lemma_msm_state_prefix(
    ps1: Seq<Seq<u64>>,
    ss1: Seq<Seq<u64>>,
    ps2: Seq<Seq<u64>>,
    ss2: Seq<Seq<u64>>,
    n: nat,
)
    requires
        forall|j: int| 0 <= j < n ==> #[trigger] ps1[j] == ps2[j],
        forall|j: int| 0 <= j < n ==> #[trigger] ss1[j] == ss2[j],
    ensures
        msm_state(ps1, ss1, n) == msm_state(ps2, ss2, n),
    decreases n,
{
    if n > 0 {
        lemma_msm_state_prefix(ps1, ss1, ps2, ss2, (n - 1) as nat);
        assert(ps1[n - 1] == ps2[n - 1]);
        assert(ss1[n - 1] == ss2[n - 1]);
    }
}

proof fn lemma_msm_state_remove(ps: Seq<Seq<u64>>, ss: Seq<Seq<u64>>, i: int, m: nat)
    requires
        ps.len() == ss.len(),
        0 <= i < ps.len(),
        scalar_is_zero(ss[i]),
        i <= m <= ps.len() - 1,
    ensures
        msm_state(ps.remove(i), ss.remove(i), m) == msm_state(ps, ss, (m + 1) as nat),
    decreases m,
{
    let psr = ps.remove(i);
    let ssr = ss.remove(i);
    if m == i {
        lemma_msm_state_prefix(psr, ssr, ps, ss, m);
    } else {
        lemma_msm_state_remove(ps, ss, i, (m - 1) as nat);
        assert(psr[m - 1] == ps[m as int]);
        assert(ssr[m - 1] == ss[m as int]);
    }
}

/// Removing a pair whose scalar is zero does not change the result: the
/// pair contributes nothing to the sum and is never selected to seed the
/// accumulator.
pub proof fn lemma_zero_scalar_skip(ps: Seq<Seq<u64>>, ss: Seq<Seq<u64>>, i: int)
    requires
        ps.len() == ss.len(),
        0 <= i < ss.len(),
        scalar_is_zero(ss[i]),
    ensures
        msm_of(ps.remove(i), ss.remove(i)) == msm_of(ps, ss),
{
    if ps.len() == 1 {
        lemma_msm_state_prefix(ps.remove(i), ss.remove(i), ps, ss, 0);
    } else {
        lemma_msm_state_remove(ps, ss, i, (ps.len() - 1) as nat);
    }
}

/// A single pair with a nonzero scalar yields exactly the double-and-add
/// product of that scalar and that point.
pub proof fn lemma_single_pair(p: Seq<u64>, s: Seq<u64>)
    requires
        !scalar_is_zero(s),
    ensures
        msm_of(seq![p], seq![s]) == scalar_mul_of(s, p),
{
    assert(msm_state(seq![p], seq![s], 0) is None);
}

} // verus!
