use k256::ecdsa::SigningKey;
use tls_oracle::bn254::{decimal_to_le_bytes, G1Point, G2Point};
use tls_oracle::groth16::VerificationKey;
use tls_oracle::oracle::{decode_proof, decode_signals, OracleError, TlsOracle};
use tls_oracle::signature::build_sign_message;

const Q_MINUS_2: &str =
    "21888242871839275222246405745257275088696311157297823662689037894645226208581";
// The G2 generator, each coordinate as c0 + c1·u. The host in use reads the
// first slot of each coordinate as c0, so c0 goes where `G2Point` keeps the
// part it writes first.
const G2_X_C0: &str =
    "10857046999023057135944570762232829481370756359578518086990519993285655852781";
const G2_X_C1: &str =
    "11559732032986387107991004021392285783925812861821192530917403151452391805634";
const G2_Y_C0: &str =
    "8495653923123431417604973247489272438418190587263600148770280649306958101930";
const G2_Y_C1: &str =
    "4082367875863433681332203403145435568316851327593401208105741076214120093531";

const OWNER: &str = "owner.near";
const URL: &str = "https://api.coingecko.com/api/v3/ping";
const NAME: &str = "api.coingecko.com";
const DATA: &str = "{\"gecko_says\":\"(V3)\"}";
// A timestamp of 1 keeps every public signal equal to 1, which the mocked
// host's multi-scalar multiplication reads as valid points.
const TS: u64 = 1;
const NOW_NS: u64 = 1_000_000_000;

fn hex(b: &[u8]) -> String {
    b.iter().map(|x| format!("{:02x}", x)).collect()
}

fn key() -> SigningKey {
    SigningKey::from_slice(&[7u8; 32]).unwrap()
}

fn raw_pubkey(k: &SigningKey) -> String {
    let p = k.verifying_key().to_encoded_point(false);
    hex(&p.as_bytes()[1..])
}

fn g1(x: &str, y: &str) -> G1Point {
    G1Point::from_decimal(x, y)
}

fn g2_gen() -> G2Point {
    G2Point {
        x_im: decimal_to_le_bytes(G2_X_C0),
        x_re: decimal_to_le_bytes(G2_X_C1),
        y_im: decimal_to_le_bytes(G2_Y_C0),
        y_re: decimal_to_le_bytes(G2_Y_C1),
    }
}

fn vk_with(n_ic: usize) -> VerificationKey {
    let mut ic = vec![g1("1", "2")];
    for _ in 1..n_ic {
        ic.push(g1("2", "0"));
    }
    VerificationKey { alpha_g1: g1("1", "2"), beta_g2: g2_gen(), gamma_g2: g2_gen(), delta_g2: g2_gen(), ic }
}

#[derive(Clone)]
struct Submission {
    url: String,
    name: String,
    ts: u64,
    data: String,
    proof_a: [String; 2],
    proof_b: [[String; 2]; 2],
    proof_c: [String; 2],
    signals: [String; 4],
    sig: String,
    v: u8,
}

impl Submission {
    fn sign_with(mut self, k: &SigningKey) -> Self {
        let h = build_sign_message(&self.url, &self.name, self.ts, &self.data);
        let (sig, rec) = k.sign_prehash_recoverable(&h).unwrap();
        self.sig = hex(&sig.to_bytes());
        self.v = rec.to_byte();
        self
    }
}

fn s1() -> Submission {
    Submission {
        url: URL.to_string(),
        name: NAME.to_string(),
        ts: TS,
        data: DATA.to_string(),
        proof_a: ["1".to_string(), "2".to_string()],
        proof_b: [
            [G2_X_C1.to_string(), G2_X_C0.to_string()],
            [G2_Y_C1.to_string(), G2_Y_C0.to_string()],
        ],
        proof_c: ["1".to_string(), Q_MINUS_2.to_string()],
        signals: ["1".to_string(), "1".to_string(), "1".to_string(), "1".to_string()],
        sig: String::new(),
        v: 0,
    }
    .sign_with(&key())
}

fn submit(o: &mut TlsOracle, now_ns: u64, s: &Submission) -> Result<u64, OracleError> {
    o.submit_attestation(
        &"prover.near".to_string(),
        now_ns,
        42,
        s.url.clone(),
        s.name.clone(),
        s.ts,
        s.data.clone(),
        s.proof_a.clone(),
        s.proof_b.clone(),
        s.proof_c.clone(),
        s.signals.clone(),
        s.sig.clone(),
        s.v,
    )
}

fn oracle_with(n_ic: usize) -> TlsOracle {
    let mut o = TlsOracle::new(OWNER.to_string(), vk_with(n_ic));
    let r = o.add_notary(
        &OWNER.to_string(),
        3,
        "1".to_string(),
        "notary".to_string(),
        "https://notary.example".to_string(),
        Some(raw_pubkey(&key())),
    );
    assert_eq!(r, Ok(()));
    o
}

fn oracle() -> TlsOracle {
    oracle_with(5)
}

#[test]
fn s1_accept() {
    let mut o = oracle();
    assert_eq!(submit(&mut o, NOW_NS, &s1()), Ok(0));
    assert_eq!(o.get_stats().attestation_count, 1);
    assert_eq!(o.get_attestations_by_source(NAME.to_string(), None).len(), 1);
    let a = o.get_attestation(0).unwrap();
    assert_eq!(a.id, 0);
    assert_eq!(a.source_url, URL);
    assert_eq!(a.server_name, NAME);
    assert_eq!(a.response_data, DATA);
    assert_eq!(a.submitter, "prover.near");
    assert_eq!(a.block_height, 42);
    assert!(a.sig_verified);
}

#[test]
fn s2_replay() {
    let mut o = oracle();
    assert_eq!(submit(&mut o, NOW_NS, &s1()), Ok(0));
    assert_eq!(submit(&mut o, NOW_NS, &s1()), Err(OracleError::Replay));
    assert_eq!(o.get_stats().attestation_count, 1);
}

#[test]
fn s3_stale() {
    let mut o = oracle();
    let mut s = s1();
    s.ts = 1000 - 601;
    s.signals[2] = s.ts.to_string();
    assert_eq!(submit(&mut o, 1000 * NOW_NS, &s), Err(OracleError::StaleTimestamp));
    assert_eq!(o.get_stats().attestation_count, 0);
}

#[test]
fn s4_wrong_notary() {
    let mut o = oracle();
    let mut s = s1();
    s.signals[3] = "999".to_string();
    assert_eq!(submit(&mut o, NOW_NS, &s), Err(OracleError::UnknownNotary));
}

#[test]
fn s5_bad_signature() {
    let mut o = oracle();
    let mut s = s1();
    let last = s.sig.pop().unwrap();
    s.sig.push(if last == '0' { '1' } else { '0' });
    let r = submit(&mut o, NOW_NS, &s);
    assert!(r == Err(OracleError::SignatureKeyMismatch) || r == Err(OracleError::InvalidSignature));
    assert_eq!(o.get_stats().attestation_count, 0);
}

#[test]
fn s6_bad_proof() {
    let mut o = oracle();
    let mut s = s1();
    s.proof_a[1] = "0".to_string();
    assert_eq!(submit(&mut o, NOW_NS, &s), Err(OracleError::InvalidProof));
    assert_eq!(o.get_stats().attestation_count, 0);
    assert_eq!(o.get_attestations_by_source(NAME.to_string(), None).len(), 0);
    assert_eq!(submit(&mut o, NOW_NS, &s1()), Ok(0));
}

#[test]
fn wrong_proof_point_is_refused() {
    let mut o = oracle();
    let mut s = s1();
    s.proof_c = ["1".to_string(), "2".to_string()];
    assert_eq!(submit(&mut o, NOW_NS, &s), Err(OracleError::InvalidProof));
    assert_eq!(o.get_stats().attestation_count, 0);
}

#[test]
fn freshness_window() {
    let mut o = oracle();
    let now = 1000u64;
    let mut s = s1();
    s.signals[3] = "999".to_string();
    for (ts, expected) in [
        (now + 61, OracleError::FutureTimestamp),
        (now - 601, OracleError::StaleTimestamp),
        (now + 60, OracleError::UnknownNotary),
        (now + 5, OracleError::UnknownNotary),
        (now - 5, OracleError::UnknownNotary),
        (now - 600, OracleError::UnknownNotary),
    ] {
        s.ts = ts;
        s.signals[2] = ts.to_string();
        assert_eq!(submit(&mut o, now * NOW_NS + 999_999_999, &s), Err(expected));
    }
}

#[test]
fn accepted_five_seconds_after_timestamp() {
    let mut o = oracle();
    assert_eq!(submit(&mut o, (TS + 5) * NOW_NS, &s1()), Ok(0));
}

#[test]
fn timestamp_signal_must_match() {
    let mut o = oracle();
    let mut s = s1();
    s.signals[2] = "2".to_string();
    assert_eq!(submit(&mut o, NOW_NS, &s), Err(OracleError::TimestampMismatch));
    s.signals[2] = "01".to_string();
    assert_eq!(submit(&mut o, NOW_NS, &s), Err(OracleError::TimestampMismatch));
}

#[test]
fn verification_key_arity() {
    let mut short = oracle_with(4);
    assert_eq!(submit(&mut short, NOW_NS, &s1()), Err(OracleError::InputLengthMismatch));
    let mut long = oracle_with(6);
    assert_eq!(submit(&mut long, NOW_NS, &s1()), Err(OracleError::InputLengthMismatch));
    let mut exact = oracle_with(5);
    assert_eq!(submit(&mut exact, NOW_NS, &s1()), Ok(0));
}

#[test]
fn admin_calls_need_owner() {
    let mut o = oracle();
    let mallory = "mallory.near".to_string();
    let r = o.add_notary(&mallory, 1, "5".to_string(), "n".to_string(), "u".to_string(), None);
    assert_eq!(r, Err(OracleError::Unauthorized));
    assert_eq!(o.remove_notary(&mallory, "1".to_string()), Err(OracleError::Unauthorized));
    assert_eq!(o.set_owner(&mallory, mallory.clone()), Err(OracleError::Unauthorized));
    assert_eq!(o.get_notaries().len(), 1);
    assert_eq!(o.get_owner(), OWNER);
}

#[test]
fn owner_hands_over() {
    let mut o = oracle();
    assert_eq!(o.set_owner(&OWNER.to_string(), "next.near".to_string()), Ok(()));
    assert_eq!(o.get_owner(), "next.near");
    assert_eq!(o.remove_notary(&OWNER.to_string(), "1".to_string()), Err(OracleError::Unauthorized));
    assert_eq!(o.remove_notary(&"next.near".to_string(), "1".to_string()), Ok(()));
}

#[test]
fn ids_are_sequential_and_listed_newest_first() {
    let mut o = oracle();
    for (i, c) in ["1", "01", "001"].iter().enumerate() {
        let mut s = s1();
        s.signals[0] = c.to_string();
        assert_eq!(submit(&mut o, NOW_NS, &s), Ok(i as u64));
    }
    let ids: Vec<u64> = o.get_attestations(None, Some(3)).iter().map(|a| a.id).collect();
    assert_eq!(ids, vec![2, 1, 0]);
    let ids: Vec<u64> = o.get_attestations(None, None).iter().map(|a| a.id).collect();
    assert_eq!(ids, vec![2, 1, 0]);
    let ids: Vec<u64> = o.get_attestations(Some(1), Some(5)).iter().map(|a| a.id).collect();
    assert_eq!(ids, vec![1, 0]);
    let ids: Vec<u64> = o.get_attestations(Some(50), Some(2)).iter().map(|a| a.id).collect();
    assert_eq!(ids, vec![2, 1]);
    assert_eq!(o.get_attestations(Some(1), Some(0)).len(), 0);
    assert_eq!(o.get_attestations(Some(50), Some(0)).len(), 0);
    for a in o.get_attestations_by_source(NAME.to_string(), None) {
        assert_eq!(a.server_name, NAME);
    }
    let by_source: Vec<u64> =
        o.get_attestations_by_source(NAME.to_string(), Some(2)).iter().map(|a| a.id).collect();
    assert_eq!(by_source, vec![2, 1]);
    assert_eq!(o.get_attestations_by_source("other.com".to_string(), None).len(), 0);
    assert!(o.get_attestation(3).is_none());
}

#[test]
fn empty_registry_lists_nothing() {
    let o = TlsOracle::new(OWNER.to_string(), vk_with(5));
    assert_eq!(o.get_attestations(None, None).len(), 0);
    assert_eq!(o.get_attestations(Some(0), Some(0)).len(), 0);
    let stats = o.get_stats();
    assert_eq!(stats.attestation_count, 0);
    assert_eq!(stats.notary_count, 0);
    assert_eq!(stats.owner, OWNER);
}

#[test]
fn migrate_starts_empty() {
    let o = TlsOracle::migrate("fresh.near".to_string(), vk_with(5));
    assert_eq!(o.get_owner(), "fresh.near");
    assert_eq!(o.get_notaries().len(), 0);
}

#[test]
fn add_notary_updates_in_place() {
    let mut o = oracle();
    let owner = OWNER.to_string();
    let r = o.add_notary(&owner, 9, "1".to_string(), "renamed".to_string(), "u2".to_string(), None);
    assert_eq!(r, Ok(()));
    let ns = o.get_notaries();
    assert_eq!(ns.len(), 1);
    assert_eq!(ns[0].name, "renamed");
    assert_eq!(ns[0].url, "u2");
    assert_eq!(ns[0].added_at, 3);
    assert_eq!(ns[0].raw_pubkey, Some(raw_pubkey(&key())));
    assert_eq!(submit(&mut o, NOW_NS, &s1()), Ok(0));
}

#[test]
fn add_notary_checks_raw_key() {
    let mut o = oracle();
    let owner = OWNER.to_string();
    let short = "ab".repeat(63) + "a";
    let not_hex = "zz".repeat(64);
    let r = o.add_notary(&owner, 1, "2".to_string(), "n".to_string(), "u".to_string(), Some(short));
    assert_eq!(r, Err(OracleError::InvalidRawPubkey));
    let r = o.add_notary(&owner, 1, "2".to_string(), "n".to_string(), "u".to_string(), Some(not_hex));
    assert_eq!(r, Err(OracleError::InvalidRawPubkey));
    let upper = raw_pubkey(&key()).to_uppercase();
    let r = o.add_notary(&owner, 1, "2".to_string(), "n".to_string(), "u".to_string(), Some(upper));
    assert_eq!(r, Ok(()));
    assert_eq!(o.get_notaries().len(), 2);
}

#[test]
fn removed_notary_is_unknown_but_history_stays() {
    let mut o = oracle();
    assert_eq!(submit(&mut o, NOW_NS, &s1()), Ok(0));
    let owner = OWNER.to_string();
    assert_eq!(o.remove_notary(&owner, "1".to_string()), Ok(()));
    assert_eq!(o.remove_notary(&owner, "1".to_string()), Err(OracleError::NotaryNotFound));
    let mut s = s1();
    s.signals[0] = "01".to_string();
    assert_eq!(submit(&mut o, NOW_NS, &s), Err(OracleError::UnknownNotary));
    assert_eq!(o.get_attestation(0).unwrap().id, 0);
}

#[test]
fn notary_without_raw_key_is_refused() {
    let mut o = TlsOracle::new(OWNER.to_string(), vk_with(5));
    let r = o.add_notary(&OWNER.to_string(), 1, "1".to_string(), "n".to_string(), "u".to_string(), None);
    assert_eq!(r, Ok(()));
    assert_eq!(submit(&mut o, NOW_NS, &s1()), Err(OracleError::NotaryMissingRawKey));
}

#[test]
fn malformed_signature_is_refused() {
    let mut o = oracle();
    let mut s = s1();
    s.sig = "abc".to_string();
    assert_eq!(submit(&mut o, NOW_NS, &s), Err(OracleError::MalformedSignature));
    let mut s = s1();
    s.v = 2;
    assert_eq!(submit(&mut o, NOW_NS, &s), Err(OracleError::MalformedSignature));
    let mut s = s1();
    s.sig = "g".repeat(128);
    assert_eq!(submit(&mut o, NOW_NS, &s), Err(OracleError::MalformedSignature));
    let mut s = s1();
    s.sig = s.sig.to_uppercase();
    assert_eq!(submit(&mut o, NOW_NS, &s), Ok(0));
}

#[test]
fn size_caps() {
    let mut o = oracle();
    let mut s = s1();
    s.data = "x".repeat(4097);
    assert_eq!(submit(&mut o, NOW_NS, &s), Err(OracleError::ResponseTooLarge));
    let mut s = s1();
    s.url = "h".repeat(2049);
    assert_eq!(submit(&mut o, NOW_NS, &s), Err(OracleError::SourceUrlTooLong));
    let mut s = s1();
    s.data = "x".repeat(4096);
    s.url = "h".repeat(2048);
    let s = s.sign_with(&key());
    assert_eq!(submit(&mut o, NOW_NS, &s), Ok(0));
}

#[test]
fn sign_message_digest() {
    let h = build_sign_message(URL, NAME, 1, DATA);
    assert_eq!(hex(&h), "a27e641d4d4511509fc8ba5c6b90550b7c23922f9474b89f7c0646fc5e794116");
    assert_ne!(build_sign_message(URL, NAME, 2, DATA), h);
}

#[test]
fn proof_decoding_swaps_real_and_imaginary() {
    let a = ["3".to_string(), "4".to_string()];
    let b = [["5".to_string(), "6".to_string()], ["7".to_string(), "8".to_string()]];
    let c = ["9".to_string(), "10".to_string()];
    let p = decode_proof(&a, &b, &c);
    assert_eq!(p.a.x, decimal_to_le_bytes("3"));
    assert_eq!(p.b.x_re, decimal_to_le_bytes("5"));
    assert_eq!(p.b.x_im, decimal_to_le_bytes("6"));
    assert_eq!(p.b.y_re, decimal_to_le_bytes("7"));
    assert_eq!(p.b.y_im, decimal_to_le_bytes("8"));
    assert_eq!(p.c.y, decimal_to_le_bytes("10"));
    let signals = ["11".to_string(), "12".to_string(), "13".to_string(), "14".to_string()];
    let scalars = decode_signals(&signals);
    assert_eq!(scalars.len(), 4);
    assert_eq!(scalars[3].0, decimal_to_le_bytes("14"));
}
