use tls_oracle::bn254::{decimal_to_le_bytes, G1Point, G2Point, Scalar};
use tls_oracle::groth16::{verify, Groth16Error, Proof, VerificationKey};

const Q_MINUS_2: &str =
    "21888242871839275222246405745257275088696311157297823662689037894645226208581";
// The G2 generator, each coordinate as c0 + c1·u. The host in use reads the
// first slot of each coordinate as c0, so c0 goes where `G2Point` keeps the
// part it writes first.
const G2_X_C0: &str =
    "10857046999023057135944570762232829481370756359578518086990519993285655852781";
const G2_X_C1: &str =
    "11559732032986387107991004021392285783925812861821192530917403151452391805634";
const G2_Y_C0: &str =
    "8495653923123431417604973247489272438418190587263600148770280649306958101930";
const G2_Y_C1: &str =
    "4082367875863433681332203403145435568316851327593401208105741076214120093531";

fn g1_gen() -> G1Point {
    G1Point::from_decimal("1", "2")
}

fn g1_gen_neg() -> G1Point {
    G1Point::from_decimal("1", Q_MINUS_2)
}

fn g2_gen() -> G2Point {
    G2Point {
        x_im: decimal_to_le_bytes(G2_X_C0),
        x_re: decimal_to_le_bytes(G2_X_C1),
        y_im: decimal_to_le_bytes(G2_Y_C0),
        y_re: decimal_to_le_bytes(G2_Y_C1),
    }
}

// IC points after the first are (2, 0): packed behind a scalar of 1 they read,
// to this host, as the generator times a zero scalar.
fn vk_with(n_ic: usize) -> VerificationKey {
    let mut ic = Vec::new();
    if n_ic > 0 {
        ic.push(g1_gen());
    }
    for _ in 1..n_ic {
        ic.push(G1Point::from_decimal("2", "0"));
    }
    VerificationKey { alpha_g1: g1_gen(), beta_g2: g2_gen(), gamma_g2: g2_gen(), delta_g2: g2_gen(), ic }
}

fn ones() -> Vec<Scalar> {
    vec![Scalar::from_decimal("1"); 4]
}

#[test]
fn negation_identity_under_host_pairing() {
    let proof = Proof { a: g1_gen(), b: g2_gen(), c: g1_gen_neg() };
    assert_eq!(verify(&vk_with(5), &proof, &ones()), Ok(true));
}

#[test]
fn wrong_proof_point_fails_pairing() {
    let proof = Proof { a: g1_gen(), b: g2_gen(), c: g1_gen() };
    assert_eq!(verify(&vk_with(5), &proof, &ones()), Ok(false));
}

#[test]
fn ic_length_must_exceed_inputs_by_one() {
    let proof = Proof { a: g1_gen(), b: g2_gen(), c: g1_gen_neg() };
    assert_eq!(verify(&vk_with(4), &proof, &ones()), Err(Groth16Error::InputLengthMismatch));
    assert_eq!(verify(&vk_with(6), &proof, &ones()), Err(Groth16Error::InputLengthMismatch));
    assert_eq!(verify(&vk_with(0), &proof, &ones()), Err(Groth16Error::InputLengthMismatch));
}

#[test]
fn coordinate_at_modulus_does_not_check() {
    let q = "21888242871839275222246405745257275088696311157297823662689037894645226208583";
    let proof = Proof { a: G1Point::from_decimal("1", "0"), b: g2_gen(), c: g1_gen_neg() };
    assert_eq!(verify(&vk_with(5), &proof, &ones()), Ok(false));
    let proof = Proof { a: g1_gen(), b: g2_gen(), c: G1Point::from_decimal(q, "2") };
    assert_eq!(verify(&vk_with(5), &proof, &ones()), Ok(false));
}

#[test]
fn point_off_curve_does_not_check() {
    let proof = Proof { a: g1_gen(), b: g2_gen(), c: G1Point::from_decimal("1", "3") };
    assert_eq!(verify(&vk_with(5), &proof, &ones()), Ok(false));
    let mut b = g2_gen();
    b.y_re = decimal_to_le_bytes("5");
    let proof = Proof { a: g1_gen(), b, c: g1_gen_neg() };
    assert_eq!(verify(&vk_with(5), &proof, &ones()), Ok(false));
}

#[test]
fn scalar_field_overflow_does_not_check() {
    let proof = Proof { a: g1_gen(), b: g2_gen(), c: g1_gen_neg() };
    let mut vk = vk_with(5);
    vk.ic[1] = G1Point::from_decimal(
        "2",
        "21888242871839275222246405745257275088548364400416034343698204186575808495617",
    );
    assert_eq!(verify(&vk, &proof, &ones()), Ok(false));
}
