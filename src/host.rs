//! The host primitives that the verifier calls, each behind one wrapper.
//!
//! Each result is a function of the bytes handed over alone; it is named here
//! and not written out. The curve primitives abort the whole call on an input
//! they cannot decode, so each of them requires an input that the host decodes:
//! coordinates below q, points on the curve (and, in G2, in the subgroup),
//! scalars below r and sign bytes of 0 or 1. Curve membership is asked of the
//! same curve library that the host decodes points with.
use vstd::prelude::*;
use crate::bn254::{fq_modulus, fr_modulus, le_value};

verus! {

/// The SHA-256 digest of `data`.
pub uninterp spec fn sha256_of(data: Seq<u8>) -> Seq<u8>;

/// The 64-byte secp256k1 public key recovered from a 32-byte hash, a 64-byte
/// compact signature `r ‖ s` and a recovery id, rejecting high-S signatures;
/// `None` where no key is recovered.
pub uninterp spec fn secp256k1_recover_strict(hash: Seq<u8>, sig: Seq<u8>, v: u8) -> Option<Seq<u8>>;

/// What the host's BN254 G1 multi-scalar multiplication returns on `input`.
pub uninterp spec fn bn254_multiexp(input: Seq<u8>) -> Seq<u8>;

/// What the host's BN254 G1 signed sum returns on `input`.
pub uninterp spec fn bn254_sum(input: Seq<u8>) -> Seq<u8>;

/// Whether the host's BN254 pairing check holds on `input`.
pub uninterp spec fn bn254_pairing(input: Seq<u8>) -> bool;

/// Whether the curve library takes two base-field elements (below q,
/// 32 bytes big-endian each) as an affine point of G1.
pub uninterp spec fn bn254_on_g1(x: Seq<u8>, y: Seq<u8>) -> bool;

/// Whether the curve library takes four base-field elements (below q,
/// big-endian), the real and imaginary parts of x and of y, as an affine point
/// of G2 that lies in the prime-order subgroup.
pub uninterp spec fn bn254_on_g2(x_re: Seq<u8>, x_im: Seq<u8>, y_re: Seq<u8>, y_im: Seq<u8>) -> bool;

/// The 32 bytes at `s` hold a base-field element: a value below q.
pub open spec fn fq_at(d: Seq<u8>, s: int) -> bool {
    le_value(d.subrange(s, s + 32)) < fq_modulus()
}

/// The 32 bytes at `s` are all zero.
pub open spec fn zero_at(d: Seq<u8>, s: int) -> bool {
    forall|i: int| s <= i < s + 32 ==> d[i] == 0
}

/// The 64 bytes at `s` hold a G1 point the host decodes: `x ‖ y`, both below
/// q, and either both zero (the point at infinity) or on the curve.
pub open spec fn g1_at(d: Seq<u8>, s: int) -> bool {
    &&& fq_at(d, s)
    &&& fq_at(d, s + 32)
    &&& ((zero_at(d, s) && zero_at(d, s + 32)) || bn254_on_g1(
        d.subrange(s, s + 32).reverse(),
        d.subrange(s + 32, s + 64).reverse(),
    ))
}

/// The 128 bytes at `s` hold a G2 point the host decodes: four elements below
/// q, read as `x` then `y`, each real part first, and either all zero or a
/// point of the subgroup.
pub open spec fn g2_at(d: Seq<u8>, s: int) -> bool {
    &&& fq_at(d, s)
    &&& fq_at(d, s + 32)
    &&& fq_at(d, s + 64)
    &&& fq_at(d, s + 96)
    &&& ((zero_at(d, s) && zero_at(d, s + 32) && zero_at(d, s + 64) && zero_at(d, s + 96))
        || bn254_on_g2(
        d.subrange(s, s + 32).reverse(),
        d.subrange(s + 32, s + 64).reverse(),
        d.subrange(s + 64, s + 96).reverse(),
        d.subrange(s + 96, s + 128).reverse(),
    ))
}

/// Element `k` of a multi-scalar-multiplication input: a G1 point, then a
/// scalar below r.
pub open spec fn multiexp_element_ok(d: Seq<u8>, k: int) -> bool {
    g1_at(d, 96 * k) && le_value(d.subrange(96 * k + 64, 96 * k + 96)) < fr_modulus()
}

/// The host takes `d` for a multi-scalar multiplication: 96-byte elements,
/// each a G1 point followed by a scalar below r.
pub open spec fn multiexp_input_ok(d: Seq<u8>) -> bool {
    &&& d.len() % 96 == 0
    &&& forall|k: int| 0 <= k < d.len() / 96 ==> #[trigger] multiexp_element_ok(d, k)
}

/// Element `k` of a signed-sum input: a sign byte of 0 or 1, then a G1 point.
pub open spec fn sum_element_ok(d: Seq<u8>, k: int) -> bool {
    d[65 * k] <= 1 && g1_at(d, 65 * k + 1)
}

/// The host takes `d` for a signed sum: 65-byte elements, each a sign byte
/// of 0 or 1 followed by a G1 point.
pub open spec fn sum_input_ok(d: Seq<u8>) -> bool {
    &&& d.len() % 65 == 0
    &&& forall|k: int| 0 <= k < d.len() / 65 ==> #[trigger] sum_element_ok(d, k)
}

/// Element `k` of a pairing input: a G1 point, then a G2 point.
pub open spec fn pairing_element_ok(d: Seq<u8>, k: int) -> bool {
    g1_at(d, 192 * k) && g2_at(d, 192 * k + 64)
}

/// The host takes `d` for a pairing check: 192-byte elements, each a G1
/// point followed by a G2 point.
pub open spec fn pairing_input_ok(d: Seq<u8>) -> bool {
    &&& d.len() % 192 == 0
    &&& forall|k: int| 0 <= k < d.len() / 192 ==> #[trigger] pairing_element_ok(d, k)
}

/// Relies on zeropool_bn::AffineG1::new, the check by which the host decodes a
/// G1 point: whether `(x, y)` is on the curve. Each coordinate comes big-endian
/// and below q, which zeropool_bn::Fq::from_slice takes without error.
#[verifier::external_body]
pub(crate) fn on_g1(x: &[u8; 32], y: &[u8; 32]) -> (r: bool)
    requires
        le_value(x@.reverse()) < fq_modulus(),
        le_value(y@.reverse()) < fq_modulus(),
    ensures
        r == bn254_on_g1(x@, y@),
{
    match (zeropool_bn::Fq::from_slice(x), zeropool_bn::Fq::from_slice(y)) {
        (Ok(fx), Ok(fy)) => zeropool_bn::AffineG1::new(fx, fy).is_ok(),
        _ => false,
    }
}

/// Relies on zeropool_bn::AffineG2::new, the check by which the host decodes a
/// G2 point: whether `(x, y)` is on the twisted curve and in the prime-order
/// subgroup. Each part comes big-endian and below q (zeropool_bn::Fq::from_slice),
/// and each coordinate is zeropool_bn::Fq2::new of its real and imaginary parts.
#[verifier::external_body]
pub(crate) fn on_g2(x_re: &[u8; 32], x_im: &[u8; 32], y_re: &[u8; 32], y_im: &[u8; 32]) -> (r: bool)
    requires
        le_value(x_re@.reverse()) < fq_modulus(),
        le_value(x_im@.reverse()) < fq_modulus(),
        le_value(y_re@.reverse()) < fq_modulus(),
        le_value(y_im@.reverse()) < fq_modulus(),
    ensures
        r == bn254_on_g2(x_re@, x_im@, y_re@, y_im@),
{
    let fq = zeropool_bn::Fq::from_slice;
    match (fq(x_re), fq(x_im), fq(y_re), fq(y_im)) {
        (Ok(a), Ok(b), Ok(c), Ok(d)) => {
            let x = zeropool_bn::Fq2::new(a, b);
            zeropool_bn::AffineG2::new(x, zeropool_bn::Fq2::new(c, d)).is_ok()
        },
        _ => false,
    }
}

/// Relies on near_sdk::env::sha256: the 32-byte SHA-256 digest of the bytes.
#[verifier::external_body]
pub(crate) fn sha256(data: &Vec<u8>) -> (r: Vec<u8>)
    ensures
        r@ == sha256_of(data@),
        r@.len() == 32,
{
    near_sdk::env::sha256(data.as_slice())
}

/// Relies on near_sdk::env::ecrecover with the malleability flag set: the
/// recovered 64-byte key, or `None`. The host refuses a hash other than 32 bytes, a
/// signature other than 64 bytes and a recovery id of 4 or more.
#[verifier::external_body]
pub(crate) fn ecrecover(hash: &Vec<u8>, sig: &Vec<u8>, v: u8) -> (r: Option<Vec<u8>>)
    requires
        hash@.len() == 32,
        sig@.len() == 64,
        v < 4,
    ensures
        match r {
            Some(k) => secp256k1_recover_strict(hash@, sig@, v) == Some(k@) && k@.len() == 64,
            None => secp256k1_recover_strict(hash@, sig@, v) is None,
        },
{
    near_sdk::env::ecrecover(hash.as_slice(), sig.as_slice(), v, true).map(|k| k.to_vec())
}

/// Relies on near_sdk::env::alt_bn128_g1_multiexp: the host's result bytes.
/// The host aborts on an input it cannot decode.
#[verifier::external_body]
pub(crate) fn alt_bn128_g1_multiexp(input: &Vec<u8>) -> (r: Vec<u8>)
    requires
        multiexp_input_ok(input@),
    ensures
        r@ == bn254_multiexp(input@),
{
    near_sdk::env::alt_bn128_g1_multiexp(input.as_slice())
}

/// Relies on near_sdk::env::alt_bn128_g1_sum: the host's result bytes.
/// The host aborts on an input it cannot decode.
#[verifier::external_body]
pub(crate) fn alt_bn128_g1_sum(input: &Vec<u8>) -> (r: Vec<u8>)
    requires
        sum_input_ok(input@),
    ensures
        r@ == bn254_sum(input@),
{
    near_sdk::env::alt_bn128_g1_sum(input.as_slice())
}

/// Relies on near_sdk::env::alt_bn128_pairing_check: whether the product of
/// the pairings of the listed (G1, G2) pairs is one. The host aborts on an
/// input it cannot decode.
#[verifier::external_body]
pub(crate) fn alt_bn128_pairing_check(input: &Vec<u8>) -> (r: bool)
    requires
        pairing_input_ok(input@),
    ensures
        r == bn254_pairing(input@),
{
    near_sdk::env::alt_bn128_pairing_check(input.as_slice())
}

} // verus!
