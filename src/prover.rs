//! What the prover hands on: the outcome of a TLS session and the Groth16
//! proof generated over it.
use vstd::prelude::*;

verus! {

/// What an MPC-TLS session produced.
#[derive(Clone, Debug)]
pub struct SessionResult {
    pub source_url: String,
    pub server_name: String,
    /// UNIX time, seconds.
    pub timestamp: u64,
    pub response_data: String,
    /// The notary's attestation, serialised and base64-encoded.
    pub attestation_b64: String,
    /// The notary's compressed secp256k1 key, base64-encoded.
    pub notary_pubkey_b64: String,
}

/// A Groth16 proof with its public signals, as decimal strings.
#[derive(Clone, Debug)]
pub struct ZkProofResult {
    pub proof_a: [String; 2],
    /// Each G2 coordinate as `[real, imaginary]`.
    pub proof_b: [[String; 2]; 2],
    pub proof_c: [String; 2],
    /// `[dataCommitment, serverNameHash, timestamp, notaryPubkeyHash]`.
    pub public_signals: [String; 4],
}

/// The generator's output has the shape of a proof: at least two coordinates
/// for each point, two of them with at least two parts for `B`, and exactly
/// four public signals.
pub open spec fn proof_shape_ok(
    pi_a: Seq<String>,
    pi_b: Seq<Vec<String>>,
    pi_c: Seq<String>,
    public_signals: Seq<String>,
) -> bool {
    pi_a.len() >= 2 && pi_b.len() >= 2 && pi_b[0]@.len() >= 2 && pi_b[1]@.len() >= 2
        && pi_c.len() >= 2 && public_signals.len() == 4
}

/// Takes the proof generator's output apart into a `ZkProofResult`; `None`
/// where it does not have the shape of a proof.
pub fn proof_from_generator_output(
    pi_a: &Vec<String>,
    pi_b: &Vec<Vec<String>>,
    pi_c: &Vec<String>,
    public_signals: &Vec<String>,
) -> (r: Option<ZkProofResult>)
    ensures
        r is Some <==> proof_shape_ok(pi_a@, pi_b@, pi_c@, public_signals@),
        r matches Some(p) ==> {
            &&& p.proof_a@ == pi_a@.subrange(0, 2)
            &&& p.proof_b@[0]@ == pi_b@[0]@.subrange(0, 2)
            &&& p.proof_b@[1]@ == pi_b@[1]@.subrange(0, 2)
            &&& p.proof_c@ == pi_c@.subrange(0, 2)
            &&& p.public_signals@ == public_signals@
        },
{
    if pi_a.len() < 2 || pi_b.len() < 2 || pi_c.len() < 2 || public_signals.len() != 4 {
        return None;
    }
    if pi_b[0].len() < 2 || pi_b[1].len() < 2 {
        return None;
    }
    let p = ZkProofResult {
        proof_a: [pi_a[0].clone(), pi_a[1].clone()],
        proof_b: [
            [pi_b[0][0].clone(), pi_b[0][1].clone()],
            [pi_b[1][0].clone(), pi_b[1][1].clone()],
        ],
        proof_c: [pi_c[0].clone(), pi_c[1].clone()],
        public_signals: [
            public_signals[0].clone(),
            public_signals[1].clone(),
            public_signals[2].clone(),
            public_signals[3].clone(),
        ],
    };
    proof {
        assert(p.proof_a@ =~= pi_a@.subrange(0, 2));
        assert(p.proof_b@[0]@ =~= pi_b@[0]@.subrange(0, 2));
        assert(p.proof_b@[1]@ =~= pi_b@[1]@.subrange(0, 2));
        assert(p.proof_c@ =~= pi_c@.subrange(0, 2));
        assert(p.public_signals@ =~= public_signals@);
    }
    Some(p)
}

} // verus!
