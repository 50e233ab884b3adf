//! Fixed-width unsigned integers as four little-endian 64-bit limbs, and
//! their little-endian byte encoding.
//!
//! Curve coordinates and scalars are 256-bit-class values; this module gives
//! them a mathematical value (`limbs4_val`), the byte encoding used on the
//! wire, and the comparisons against the two field moduli of BN254.

use vstd::prelude::*;

verus! {

/// The least limb of the BN254 base-field modulus `q`.
pub const Q_LIMB_0: u64 = 0x3c208c16d87cfd47;
/// The second limb of `q`.
pub const Q_LIMB_1: u64 = 0x97816a916871ca8d;
/// The third limb of `q`.
pub const Q_LIMB_2: u64 = 0xb85045b68181585d;
/// The most significant limb of `q`.
pub const Q_LIMB_3: u64 = 0x30644e72e131a029;

/// The least limb of `(q - 1) / 2`.
pub const HALF_Q_LIMB_0: u64 = 0x9e10460b6c3e7ea3;
/// The second limb of `(q - 1) / 2`.
pub const HALF_Q_LIMB_1: u64 = 0xcbc0b548b438e546;
/// The third limb of `(q - 1) / 2`.
pub const HALF_Q_LIMB_2: u64 = 0xdc2822db40c0ac2e;
/// The most significant limb of `(q - 1) / 2`.
pub const HALF_Q_LIMB_3: u64 = 0x183227397098d014;

/// The least limb of the BN254 scalar-field modulus `r`.
pub const R_LIMB_0: u64 = 0x43e1f593f0000001;
/// The second limb of `r`.
pub const R_LIMB_1: u64 = 0x2833e84879b97091;
/// The third limb of `r`.
pub const R_LIMB_2: u64 = 0xb85045b68181585d;
/// The most significant limb of `r`.
pub const R_LIMB_3: u64 = 0x30644e72e131a029;

/// The integer a little-endian sequence of four 64-bit limbs stands for.
pub open spec fn limbs4_val(s: Seq<u64>) -> int {
    s[0] + (s[1] as int) * 0x10000000000000000int
        + (s[2] as int) * 0x100000000000000000000000000000000int
        + (s[3] as int) * 0x1000000000000000000000000000000000000000000000000int
}

/// The BN254 base-field modulus.
pub open spec fn q_val() -> int {
    21888242871839275222246405745257275088696311157297823662689037894645226208583int
}

/// `(q - 1) / 2`: a coordinate above this value is encoded with the sign bit set.
pub open spec fn half_q_val() -> int {
    10944121435919637611123202872628637544348155578648911831344518947322613104291int
}

/// The BN254 scalar-field modulus.
pub open spec fn r_val() -> int {
    21888242871839275222246405745257275088548364400416034343698204186575808495617int
}

/// The modulus limb constants stand for exactly `q`, `(q - 1) / 2` and `r`.
pub proof fn lemma_modulus_limbs()
    ensures
        limbs4_val(seq![Q_LIMB_0, Q_LIMB_1, Q_LIMB_2, Q_LIMB_3]) == q_val(),
        limbs4_val(seq![HALF_Q_LIMB_0, HALF_Q_LIMB_1, HALF_Q_LIMB_2, HALF_Q_LIMB_3]) == half_q_val(),
        limbs4_val(seq![R_LIMB_0, R_LIMB_1, R_LIMB_2, R_LIMB_3]) == r_val(),
{
}

/// Compares the value of `a` against the value of the four given limbs.
///
/// The comparison runs from the most significant limb down, which agrees
/// with the numeric order because each lower limb contributes less than one
/// unit of the next limb's weight.
pub fn limbs4_lt(a: &[u64; 4], b0: u64, b1: u64, b2: u64, b3: u64) -> (r: bool)
    ensures
        r == (limbs4_val(a@) < limbs4_val(seq![b0, b1, b2, b3])),
{
    if a[3] != b3 {
        a[3] < b3
    } else if a[2] != b2 {
        a[2] < b2
    } else if a[1] != b1 {
        a[1] < b1
    } else {
        a[0] < b0
    }
}

/// Compares the value of `a` against the value of the four given limbs,
/// the other way around.
pub fn limbs4_gt(a: &[u64; 4], b0: u64, b1: u64, b2: u64, b3: u64) -> (r: bool)
    ensures
        r == (limbs4_val(a@) > limbs4_val(seq![b0, b1, b2, b3])),
{
    if a[3] != b3 {
        a[3] > b3
    } else if a[2] != b2 {
        a[2] > b2
    } else if a[1] != b1 {
        a[1] > b1
    } else {
        a[0] > b0
    }
}

/// The eight little-endian bytes of a 64-bit limb.
pub open spec fn u64_le_bytes(x: u64) -> Seq<u8> {
    seq![
        (x & 0xff) as u8,
        ((x >> 8) & 0xff) as u8,
        ((x >> 16) & 0xff) as u8,
        ((x >> 24) & 0xff) as u8,
        ((x >> 32) & 0xff) as u8,
        ((x >> 40) & 0xff) as u8,
        ((x >> 48) & 0xff) as u8,
        ((x >> 56) & 0xff) as u8,
    ]
}

/// The integer eight little-endian bytes stand for.
pub open spec fn bytes8_val(b: Seq<u8>) -> int {
    b[0] + (b[1] as int) * 0x100 + (b[2] as int) * 0x10000 + (b[3] as int) * 0x1000000
        + (b[4] as int) * 0x100000000 + (b[5] as int) * 0x10000000000
        + (b[6] as int) * 0x1000000000000 + (b[7] as int) * 0x100000000000000
}

/// Reading back the eight little-endian bytes of a limb recovers the limb.
pub proof fn lemma_u64_le_bytes_val(x: u64)
    ensures
        bytes8_val(u64_le_bytes(x)) == x,
{
    assert(x & 0xff < 0x100 && (x >> 8) & 0xff < 0x100 && (x >> 16) & 0xff < 0x100
        && (x >> 24) & 0xff < 0x100 && (x >> 32) & 0xff < 0x100 && (x >> 40) & 0xff < 0x100
        && (x >> 48) & 0xff < 0x100 && (x >> 56) & 0xff < 0x100) by (bit_vector);
    assert((x & 0xff) + ((x >> 8) & 0xff) * 0x100 + ((x >> 16) & 0xff) * 0x10000
        + ((x >> 24) & 0xff) * 0x1000000 + ((x >> 32) & 0xff) * 0x100000000
        + ((x >> 40) & 0xff) * 0x10000000000 + ((x >> 48) & 0xff) * 0x1000000000000
        + ((x >> 56) & 0xff) * 0x100000000000000 == x) by (bit_vector);
}

/// Appends the eight little-endian bytes of `x` to `out`.
pub fn write_u64_le(out: &mut Vec<u8>, x: u64)
    ensures
        final(out)@ == old(out)@ + u64_le_bytes(x),
{
    out.push((x & 0xff) as u8);
    out.push(((x >> 8) & 0xff) as u8);
    out.push(((x >> 16) & 0xff) as u8);
    out.push(((x >> 24) & 0xff) as u8);
    out.push(((x >> 32) & 0xff) as u8);
    out.push(((x >> 40) & 0xff) as u8);
    out.push(((x >> 48) & 0xff) as u8);
    out.push(((x >> 56) & 0xff) as u8);
    assert(out@ =~= old(out)@ + u64_le_bytes(x));
}

/// Reads the limb held by eight little-endian bytes starting at `off`.
pub fn read_u64_le(bytes: &[u8], off: usize) -> (r: u64)
    requires
        off + 8 <= bytes@.len(),
    ensures
        r == bytes8_val(bytes@.subrange(off as int, off + 8)),
{
    let b0 = bytes[off];
    let b1 = bytes[off + 1];
    let b2 = bytes[off + 2];
    let b3 = bytes[off + 3];
    let b4 = bytes[off + 4];
    let b5 = bytes[off + 5];
    let b6 = bytes[off + 6];
    let b7 = bytes[off + 7];
    let r = (b0 as u64) | ((b1 as u64) << 8) | ((b2 as u64) << 16) | ((b3 as u64) << 24)
        | ((b4 as u64) << 32) | ((b5 as u64) << 40) | ((b6 as u64) << 48) | ((b7 as u64) << 56);
    assert((b0 as u64) | ((b1 as u64) << 8) | ((b2 as u64) << 16) | ((b3 as u64) << 24)
        | ((b4 as u64) << 32) | ((b5 as u64) << 40) | ((b6 as u64) << 48) | ((b7 as u64) << 56)
        == b0 + (b1 as u64) * 0x100 + (b2 as u64) * 0x10000 + (b3 as u64) * 0x1000000
            + (b4 as u64) * 0x100000000 + (b5 as u64) * 0x10000000000
            + (b6 as u64) * 0x1000000000000 + (b7 as u64) * 0x100000000000000)
        by (bit_vector);
    r
}

} // verus!
