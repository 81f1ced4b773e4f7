//! Groth16 verification over BN254 through the host curve primitives.
//!
//! The identity checked is
//! `e(-A, B) · e(α, β) · e(vk_x, γ) · e(C, δ) = 1`,
//! with `vk_x = IC[0] + Σ inputs[i] · IC[i + 1]`.
use vstd::prelude::*;
use crate::bn254::{
    append_bytes, below_fq, below_fr, g1_bytes, g2_bytes, le_bytes, le_value,
    lemma_le_bytes_of_value, neg_value, window32, G1Point, G2Point, Scalar,
};
use crate::host::{
    alt_bn128_g1_multiexp, alt_bn128_g1_sum, alt_bn128_pairing_check, bn254_multiexp,
    bn254_pairing, bn254_sum, g1_at, g2_at, multiexp_input_ok, on_g1, on_g2, pairing_input_ok,
    multiexp_element_ok, pairing_element_ok, sum_element_ok, sum_input_ok, zero_at,
};

verus! {

/// A Groth16 verification key: `IC` holds one point more than the circuit
/// has public inputs.
#[derive(Clone)]
pub struct VerificationKey {
    pub alpha_g1: G1Point,
    pub beta_g2: G2Point,
    pub gamma_g2: G2Point,
    pub delta_g2: G2Point,
    pub ic: Vec<G1Point>,
}

/// A Groth16 proof.
#[derive(Clone, Copy, Debug)]
pub struct Proof {
    pub a: G1Point,
    pub b: G2Point,
    pub c: G1Point,
}

/// Why a proof could not be checked at all.
#[derive(Clone, Copy, Debug, PartialEq, Eq)]
pub enum Groth16Error {
    /// `IC` does not have one point more than there are public inputs.
    InputLengthMismatch,
    /// A host curve primitive returned other than 64 bytes.
    HostFailure,
}

/// The multi-scalar-multiplication input: `scalar ‖ point` for each public
/// input and the `IC` point after the first that goes with it.
pub open spec fn msm_input(inputs: Seq<Scalar>, ic: Seq<G1Point>) -> Seq<u8>
    decreases inputs.len(),
{
    if inputs.len() == 0 {
        Seq::empty()
    } else {
        msm_input(inputs.drop_last(), ic) + inputs.last().0@ + g1_bytes(
            ic[inputs.len() as int],
        )
    }
}

/// The signed-sum input that adds two points: `0 ‖ a ‖ 0 ‖ b`.
pub open spec fn sum_input(a: Seq<u8>, b: Seq<u8>) -> Seq<u8> {
    seq![0u8] + a + seq![0u8] + b
}

/// The bytes of `-p`.
pub open spec fn g1_neg_bytes(p: G1Point) -> Seq<u8> {
    p.x@ + le_bytes(neg_value(le_value(p.y@)), 32)
}

/// The pairing input, in the order `(-A, B), (α, β), (vk_x, γ), (C, δ)`.
pub open spec fn pairing_input(vk: VerificationKey, proof: Proof, vk_x: Seq<u8>) -> Seq<u8> {
    g1_neg_bytes(proof.a) + g2_bytes(proof.b) + g1_bytes(vk.alpha_g1) + g2_bytes(vk.beta_g2)
        + vk_x + g2_bytes(vk.gamma_g2) + g1_bytes(proof.c) + g2_bytes(vk.delta_g2)
}

/// What checking `proof` against `vk` and `inputs` comes to, given what the
/// host primitives return. An element that the host could not decode (a
/// coordinate at or above q, a point off the curve or outside the subgroup, a
/// scalar at or above r) makes the proof fail to check.
pub open spec fn groth16_outcome(vk: VerificationKey, proof: Proof, inputs: Seq<Scalar>) -> Result<
    bool,
    Groth16Error,
> {
    if vk.ic@.len() != inputs.len() + 1 {
        Err(Groth16Error::InputLengthMismatch)
    } else if !multiexp_input_ok(msm_input(inputs, vk.ic@)) {
        Ok(false)
    } else {
        let msm = bn254_multiexp(msm_input(inputs, vk.ic@));
        if msm.len() != 64 {
            Err(Groth16Error::HostFailure)
        } else if !sum_input_ok(sum_input(g1_bytes(vk.ic@[0]), msm)) {
            Ok(false)
        } else {
            let vk_x = bn254_sum(sum_input(g1_bytes(vk.ic@[0]), msm));
            if vk_x.len() != 64 {
                Err(Groth16Error::HostFailure)
            } else if !pairing_input_ok(pairing_input(vk, proof, vk_x)) {
                Ok(false)
            } else {
                Ok(bn254_pairing(pairing_input(vk, proof, vk_x)))
            }
        }
    }
}

/// `a` with its bytes in reverse order.
fn reversed32(a: &[u8; 32]) -> (r: [u8; 32])
    ensures
        r@ == a@.reverse(),
{
    let mut out = [0u8; 32];
    let mut i: usize = 0;
    while i < 32
        invariant
            0 <= i <= 32,
            forall|k: int| 0 <= k < i ==> out@[k] == a@[31 - k],
        decreases 32 - i,
    {
        out[i] = a[31 - i];
        i = i + 1;
    }
    assert(out@ =~= a@.reverse());
    out
}

/// Whether the 32 bytes at `s` are all zero.
fn zero_window(d: &[u8], s: usize) -> (r: bool)
    requires
        s + 32 <= d@.len(),
    ensures
        r == zero_at(d@, s as int),
{
    let w = window32(d, s);
    let mut i: usize = 0;
    while i < 32
        invariant
            0 <= i <= 32,
            s + 32 <= d@.len(),
            w@ == d@.subrange(s as int, s + 32),
            forall|k: int| s <= k < s + i ==> d@[k] == 0,
        decreases 32 - i,
    {
        assert(w@[i as int] == d@[s + i]);
        if w[i] != 0 {
            return false;
        }
        i = i + 1;
    }
    true
}

/// Whether the host decodes the 64 bytes at `s` as a G1 point.
fn g1_window_ok(d: &[u8], s: usize) -> (r: bool)
    requires
        s + 64 <= d@.len(),
    ensures
        r == g1_at(d@, s as int),
{
    let len = d.len();
    assert(s + 64 <= len);
    let x = window32(d, s);
    let y = window32(d, s + 32);
    if !below_fq(&x) || !below_fq(&y) {
        return false;
    }
    if zero_window(d, s) && zero_window(d, s + 32) {
        return true;
    }
    let xr = reversed32(&x);
    let yr = reversed32(&y);
    proof {
        assert(xr@.reverse() =~= x@);
        assert(yr@.reverse() =~= y@);
    }
    on_g1(&xr, &yr)
}

/// Whether the host decodes the 128 bytes at `s` as a G2 point.
fn g2_window_ok(d: &[u8], s: usize) -> (r: bool)
    requires
        s + 128 <= d@.len(),
    ensures
        r == g2_at(d@, s as int),
{
    let len = d.len();
    assert(s + 128 <= len);
    let a = window32(d, s);
    let b = window32(d, s + 32);
    let c = window32(d, s + 64);
    let e = window32(d, s + 96);
    if !below_fq(&a) || !below_fq(&b) || !below_fq(&c) || !below_fq(&e) {
        return false;
    }
    if zero_window(d, s) && zero_window(d, s + 32) && zero_window(d, s + 64) && zero_window(
        d,
        s + 96,
    ) {
        return true;
    }
    let ar = reversed32(&a);
    let br = reversed32(&b);
    let cr = reversed32(&c);
    let er = reversed32(&e);
    proof {
        assert(ar@.reverse() =~= a@);
        assert(br@.reverse() =~= b@);
        assert(cr@.reverse() =~= c@);
        assert(er@.reverse() =~= e@);
    }
    on_g2(&ar, &br, &cr, &er)
}

/// Whether the host takes `d` for a multi-scalar multiplication.
fn multiexp_input_valid(d: &[u8]) -> (r: bool)
    ensures
        r == multiexp_input_ok(d@),
{
    let n = d.len();
    if n % 96 != 0 {
        return false;
    }
    let mut k: usize = 0;
    while k < n / 96
        invariant
            n == d@.len(),
            n % 96 == 0,
            0 <= k <= n / 96,
            forall|j: int| 0 <= j < k ==> #[trigger] multiexp_element_ok(d@, j),
        decreases n / 96 - k,
    {
        let ok = g1_window_ok(d, 96 * k) && below_fr(&window32(d, 96 * k + 64));
        if !ok {
            assert(!multiexp_element_ok(d@, k as int));
            return false;
        }
        assert(multiexp_element_ok(d@, k as int));
        k = k + 1;
    }
    true
}

/// Whether the host takes `d` for a signed sum.
fn sum_input_valid(d: &[u8]) -> (r: bool)
    ensures
        r == sum_input_ok(d@),
{
    let n = d.len();
    if n % 65 != 0 {
        return false;
    }
    let mut k: usize = 0;
    while k < n / 65
        invariant
            n == d@.len(),
            n % 65 == 0,
            0 <= k <= n / 65,
            forall|j: int| 0 <= j < k ==> #[trigger] sum_element_ok(d@, j),
        decreases n / 65 - k,
    {
        let sign = d[65 * k];
        let ok = sign <= 1 && g1_window_ok(d, 65 * k + 1);
        if !ok {
            assert(!sum_element_ok(d@, k as int));
            return false;
        }
        assert(sum_element_ok(d@, k as int));
        k = k + 1;
    }
    true
}

/// Whether the host takes `d` for a pairing check.
fn pairing_input_valid(d: &[u8]) -> (r: bool)
    ensures
        r == pairing_input_ok(d@),
{
    let n = d.len();
    if n % 192 != 0 {
        return false;
    }
    let mut k: usize = 0;
    while k < n / 192
        invariant
            n == d@.len(),
            n % 192 == 0,
            0 <= k <= n / 192,
            forall|j: int| 0 <= j < k ==> #[trigger] pairing_element_ok(d@, j),
        decreases n / 192 - k,
    {
        let ok = g1_window_ok(d, 192 * k) && g2_window_ok(d, 192 * k + 64);
        if !ok {
            assert(!pairing_element_ok(d@, k as int));
            return false;
        }
        assert(pairing_element_ok(d@, k as int));
        k = k + 1;
    }
    true
}

/// The G1 point that 64 host bytes hold.
fn g1_from_bytes(b: &Vec<u8>) -> (r: G1Point)
    requires
        b@.len() == 64,
    ensures
        g1_bytes(r) == b@,
{
    let mut x = [0u8; 32];
    let mut y = [0u8; 32];
    let mut i: usize = 0;
    while i < 32
        invariant
            0 <= i <= 32,
            b@.len() == 64,
            forall|k: int| 0 <= k < i ==> x@[k] == b@[k] && y@[k] == b@[k + 32],
        decreases 32 - i,
    {
        x[i] = b[i];
        y[i] = b[i + 32];
        i = i + 1;
    }
    let r = G1Point { x, y };
    assert(g1_bytes(r) =~= b@);
    r
}

/// `Σ inputs[i] · ic[i + 1]` through the host; `None` where the host could
/// not decode the input, `Err` where its result is not 64 bytes.
fn g1_multiexp(inputs: &[Scalar], ic: &Vec<G1Point>) -> (r: Option<Result<G1Point, Groth16Error>>)
    requires
        ic@.len() == inputs@.len() + 1,
    ensures
        ({
            let data = msm_input(inputs@, ic@);
            let out = bn254_multiexp(data);
            match r {
                None => !multiexp_input_ok(data),
                Some(Ok(p)) => multiexp_input_ok(data) && out.len() == 64 && g1_bytes(p) == out,
                Some(Err(e)) => multiexp_input_ok(data) && out.len() != 64 && e == Groth16Error::HostFailure,
            }
        }),
{
    let mut data: Vec<u8> = Vec::new();
    let mut i: usize = 0;
    while i < inputs.len()
        invariant
            0 <= i <= inputs@.len(),
            ic@.len() == inputs@.len() + 1,
            data@ == msm_input(inputs@.subrange(0, i as int), ic@),
        decreases inputs@.len() - i,
    {
        let scalar = inputs[i].to_bytes();
        let point = ic[i + 1].to_bytes();
        append_bytes(&mut data, &scalar);
        append_bytes(&mut data, &point);
        proof {
            let next = inputs@.subrange(0, i + 1);
            assert(next.drop_last() =~= inputs@.subrange(0, i as int));
            assert(next.last() == inputs@[i as int]);
        }
        i = i + 1;
    }
    assert(inputs@.subrange(0, inputs@.len() as int) =~= inputs@);
    if !multiexp_input_valid(data.as_slice()) {
        return None;
    }
    let result = alt_bn128_g1_multiexp(&data);
    if result.len() != 64 {
        return Some(Err(Groth16Error::HostFailure));
    }
    Some(Ok(g1_from_bytes(&result)))
}

/// `a + b` through the host; `None` where the host could not decode the
/// input, `Err` where its result is not 64 bytes.
fn g1_sum(a: &G1Point, b: &G1Point) -> (r: Option<Result<G1Point, Groth16Error>>)
    ensures
        ({
            let data = sum_input(g1_bytes(*a), g1_bytes(*b));
            let out = bn254_sum(data);
            match r {
                None => !sum_input_ok(data),
                Some(Ok(p)) => sum_input_ok(data) && out.len() == 64 && g1_bytes(p) == out,
                Some(Err(e)) => sum_input_ok(data) && out.len() != 64 && e == Groth16Error::HostFailure,
            }
        }),
{
    let mut data: Vec<u8> = Vec::new();
    data.push(0u8);
    append_bytes(&mut data, &a.to_bytes());
    data.push(0u8);
    append_bytes(&mut data, &b.to_bytes());
    assert(data@ =~= sum_input(g1_bytes(*a), g1_bytes(*b)));
    if !sum_input_valid(data.as_slice()) {
        return None;
    }
    let result = alt_bn128_g1_sum(&data);
    if result.len() != 64 {
        return Some(Err(Groth16Error::HostFailure));
    }
    Some(Ok(g1_from_bytes(&result)))
}

/// Checks a Groth16 proof against `vk` and the public inputs.
///
/// `Ok(true)` exactly when the host pairing check accepts
/// `e(-A, B) · e(α, β) · e(vk_x, γ) · e(C, δ) = 1`; `Ok(false)` also where a
/// point or scalar is one the host could not decode, which is checked before
/// each host call.
pub fn verify(vk: &VerificationKey, proof: &Proof, public_inputs: &[Scalar]) -> (r: Result<
    bool,
    Groth16Error,
>)
    ensures
        r == groth16_outcome(*vk, *proof, public_inputs@),
        r == Err::<bool, Groth16Error>(Groth16Error::InputLengthMismatch) <==> vk.ic@.len()
            != public_inputs@.len() + 1,
{
    if vk.ic.len() == 0 || vk.ic.len() - 1 != public_inputs.len() {
        return Err(Groth16Error::InputLengthMismatch);
    }
    let msm = match g1_multiexp(public_inputs, &vk.ic) {
        Some(Ok(p)) => p,
        Some(Err(e)) => {
            return Err(e);
        },
        None => {
            return Ok(false);
        },
    };
    let vk_x = match g1_sum(&vk.ic[0], &msm) {
        Some(Ok(p)) => p,
        Some(Err(e)) => {
            return Err(e);
        },
        None => {
            return Ok(false);
        },
    };
    let neg_a = proof.a.neg();
    let mut data: Vec<u8> = Vec::new();
    append_bytes(&mut data, &neg_a.to_bytes());
    append_bytes(&mut data, &proof.b.to_bytes());
    append_bytes(&mut data, &vk.alpha_g1.to_bytes());
    append_bytes(&mut data, &vk.beta_g2.to_bytes());
    append_bytes(&mut data, &vk_x.to_bytes());
    append_bytes(&mut data, &vk.gamma_g2.to_bytes());
    append_bytes(&mut data, &proof.c.to_bytes());
    append_bytes(&mut data, &vk.delta_g2.to_bytes());
    proof {
        lemma_le_bytes_of_value(neg_a.y@);
        assert(g1_bytes(neg_a) == g1_neg_bytes(proof.a));
        assert(data@ =~= pairing_input(*vk, *proof, g1_bytes(vk_x)));
    }
    if !pairing_input_valid(data.as_slice()) {
        return Ok(false);
    }
    Ok(alt_bn128_pairing_check(&data))
}

} // verus!
