//! Verification core of a TLS oracle: a registry that admits attestations of
//! HTTPS responses only when a trusted notary signed them and a Groth16 proof
//! over BN254 binds them, refusing replays and stale submissions.
//!
//! - `bn254`: field elements and curve points as the host takes them.
//! - `groth16`: the proof check through the host curve primitives.
//! - `host`: the host primitives the verifier relies on, and names for their results.
//! - `signature`: the notary's signed message and key recovery.
//! - `oracle`: the registry state machine.
//! - `keyed`: sequences with unique keys read as maps.
//! - `url_guard`, `prover`: the prover's request guards and proof hand-off.
pub mod bn254;
pub mod groth16;
pub mod host;
pub mod keyed;
pub mod oracle;
pub mod prover;
pub mod signature;
pub mod url_guard;
