//! The attestation registry: trusted notaries, the append-only attestation
//! log, the per-source index and the set of data commitments already used.
//!
//! Reading the environment (the caller, the block time and height) is left to
//! whoever hosts the registry: those values come in as arguments.
use vstd::prelude::*;
use vstd::utf8::encode_utf8;
use crate::bn254::{decimal_digits, decoded_field, G1Point, G2Point, Scalar};
use crate::groth16::{groth16_outcome, verify, Groth16Error, Proof, VerificationKey};
use crate::keyed::{
    has_key, keyed_map, keys_unique, lemma_keyed_get, lemma_keyed_push, lemma_keyed_remove,
    lemma_keyed_update,
};
use crate::signature::{
    build_sign_message, bytes_equal, is_hex, sign_preimage, signature_outcome,
    verify_notary_signature, SignatureError,
};
use crate::host::sha256_of;

verus! {

/// Largest response payload accepted, in bytes.
pub const MAX_RESPONSE_BYTES: usize = 4096;

/// Longest source URL accepted, in bytes.
pub const MAX_SOURCE_URL_BYTES: usize = 2048;

/// Oldest attestation accepted: ten minutes, in seconds.
pub const MAX_ATTESTATION_AGE_SECS: u64 = 600;

/// How far an attestation may lie in the future: one minute, in seconds.
pub const FUTURE_TOLERANCE_SECS: u64 = 60;

/// Nanoseconds in a second; block timestamps come in nanoseconds.
pub const NANOS_PER_SEC: u64 = 1_000_000_000;

/// Page size of a listing when none is asked for.
pub const DEFAULT_PAGE_SIZE: u64 = 20;

/// Largest page size of a listing.
pub const MAX_PAGE_SIZE: u64 = 100;

/// Length of a raw notary key: 64 bytes `x ‖ y` as hex.
pub const RAW_PUBKEY_HEX_LEN: usize = 128;

/// Positions of the public signals. The circuit fixes this order and the host
/// does not check it: slot 2 is matched against the submitted timestamp and
/// slot 3 against the notary registry.
pub const SIGNAL_DATA_COMMITMENT: usize = 0;

pub const SIGNAL_SERVER_NAME_HASH: usize = 1;

pub const SIGNAL_TIMESTAMP: usize = 2;

pub const SIGNAL_NOTARY_PUBKEY_HASH: usize = 3;

/// The UTF-8 bytes of a string.
pub open spec fn str_bytes(s: String) -> Seq<u8> {
    encode_utf8(s@)
}

/// An accepted attestation. Immutable once stored.
#[derive(Clone, Debug)]
pub struct Attestation {
    pub id: u64,
    pub source_url: String,
    pub server_name: String,
    pub timestamp: u64,
    pub response_data: String,
    pub data_commitment: String,
    pub server_name_hash: String,
    pub notary_pubkey_hash: String,
    pub submitter: String,
    pub block_height: u64,
    pub sig_verified: bool,
}

/// A trusted notary, keyed by the hash of its public key.
#[derive(Clone, Debug)]
pub struct NotaryInfo {
    pub pubkey_hash: String,
    /// The uncompressed secp256k1 key `x ‖ y`, 128 hex digits; attestations
    /// naming a notary without it are refused.
    pub raw_pubkey: Option<String>,
    pub name: String,
    pub url: String,
    pub added_by: String,
    pub added_at: u64,
}

/// The ids of the attestations from one server, oldest first.
pub struct SourceIds {
    pub server_name: String,
    pub ids: Vec<u64>,
}

/// Counts and owner of the registry.
#[derive(Clone, Debug)]
pub struct Stats {
    pub attestation_count: u64,
    pub notary_count: u64,
    pub owner: String,
}

/// Why a call was refused. A refused call changes nothing.
#[derive(Clone, Copy, Debug, PartialEq, Eq)]
pub enum OracleError {
    /// The caller is not the owner.
    Unauthorized,
    /// A raw notary key is not 128 hex digits.
    InvalidRawPubkey,
    /// No notary has that key hash.
    NotaryNotFound,
    /// The response payload is over its cap.
    ResponseTooLarge,
    /// The source URL is over its cap.
    SourceUrlTooLong,
    /// The timestamp lies too far in the future.
    FutureTimestamp,
    /// The timestamp is too old.
    StaleTimestamp,
    /// The timestamp signal is not the submitted timestamp.
    TimestampMismatch,
    /// The notary signal names no trusted notary.
    UnknownNotary,
    /// The data commitment was used before.
    Replay,
    /// The notary has no raw key on record.
    NotaryMissingRawKey,
    /// The signature is not 128 hex digits, or its recovery id is not 0 or 1.
    MalformedSignature,
    /// No key could be recovered from the signature.
    InvalidSignature,
    /// The recovered key is not the notary's.
    SignatureKeyMismatch,
    /// The verification key does not fit the number of public signals.
    InputLengthMismatch,
    /// A host curve primitive answered with the wrong length.
    HostFailure,
    /// The pairing check failed.
    InvalidProof,
}

/// The key of a notary entry.
pub open spec fn notary_key() -> spec_fn(NotaryInfo) -> Seq<char> {
    |n: NotaryInfo| n.pubkey_hash@
}

/// The key of a per-source entry.
pub open spec fn source_key() -> spec_fn(SourceIds) -> Seq<char> {
    |e: SourceIds| e.server_name@
}

/// A raw notary key as stored: 128 hex digits.
pub open spec fn raw_key_ok(k: String) -> bool {
    str_bytes(k).len() == RAW_PUBKEY_HEX_LEN && is_hex(str_bytes(k))
}

/// The registry state.
pub struct TlsOracle {
    owner: String,
    trusted_notaries: Vec<NotaryInfo>,
    attestations: Vec<Attestation>,
    attestations_by_source: Vec<SourceIds>,
    used_commitments: Vec<String>,
    attestation_count: u64,
    vk: VerificationKey,
}

impl TlsOracle {
    /// The owner, the one principal allowed to edit the notary registry.
    pub closed spec fn owner_id(&self) -> Seq<char> {
        self.owner@
    }

    /// The notaries, in the order they are listed.
    pub closed spec fn notary_list(&self) -> Seq<NotaryInfo> {
        self.trusted_notaries@
    }

    /// The notaries by key hash.
    pub open spec fn notaries(&self) -> Map<Seq<char>, NotaryInfo> {
        keyed_map(self.notary_list(), notary_key())
    }

    /// The attestation log; the attestation with id `i` stands at `i`.
    pub closed spec fn attestation_log(&self) -> Seq<Attestation> {
        self.attestations@
    }

    /// The per-source entries.
    pub closed spec fn source_list(&self) -> Seq<SourceIds> {
        self.attestations_by_source@
    }

    /// The ids of the attestations of each server name.
    pub open spec fn sources(&self) -> Map<Seq<char>, Seq<u64>> {
        keyed_map(self.source_list(), source_key()).map_values(|e: SourceIds| e.ids@)
    }

    /// The ids of the attestations of one server name, oldest first.
    pub open spec fn source_ids(&self, name: Seq<char>) -> Seq<u64> {
        if self.sources().contains_key(name) {
            self.sources()[name]
        } else {
            Seq::empty()
        }
    }

    /// The data commitments already used.
    pub closed spec fn used(&self) -> Set<Seq<char>> {
        Set::new(|c: Seq<char>| exists|i: int| 0 <= i < self.used_commitments@.len() && (#[trigger] self.used_commitments@[i])@ == c)
    }

    /// The verification key proofs are checked against.
    pub closed spec fn vk(&self) -> VerificationKey {
        self.vk
    }

    /// The registry's invariant: ids are dense and match positions, keys are
    /// unique, stored raw keys are well formed, and every indexed id exists.
    pub closed spec fn wf(&self) -> bool {
        &&& self.attestation_count as int == self.attestations@.len()
        &&& forall|i: int| 0 <= i < self.attestations@.len() ==> (#[trigger] self.attestations@[i]).id == i
        &&& keys_unique(self.trusted_notaries@, notary_key())
        &&& forall|i: int| 0 <= i < self.trusted_notaries@.len() ==> match (#[trigger] self.trusted_notaries@[i]).raw_pubkey {
            Some(k) => raw_key_ok(k),
            None => true,
        }
        &&& keys_unique(self.attestations_by_source@, source_key())
        &&& self.sources_ok(self.attestation_count as int)
    }

    /// Each server name's ids are below `bound`, ascend, and name attestations
    /// of that server.
    pub closed spec fn sources_ok(&self, bound: int) -> bool {
        &&& forall|a: int, j: int| 0 <= a < self.attestations_by_source@.len() && 0 <= j < self.attestations_by_source@[a].ids@.len()
            ==> {
                let id = #[trigger] self.attestations_by_source@[a].ids@[j];
                &&& id < bound
                &&& id < self.attestations@.len()
                &&& self.attestations@[id as int].server_name@ == self.attestations_by_source@[a].server_name@
            }
        &&& forall|a: int, j: int, k: int| 0 <= a < self.attestations_by_source@.len() && 0 <= j < k < self.attestations_by_source@[a].ids@.len()
            ==> #[trigger] self.attestations_by_source@[a].ids@[j] < #[trigger] self.attestations_by_source@[a].ids@[k]
    }

    proof fn lemma_empty_maps(&self)
        requires
            self.trusted_notaries@.len() == 0,
            self.attestations_by_source@.len() == 0,
            self.used_commitments@.len() == 0,
        ensures
            self.notaries() == Map::<Seq<char>, NotaryInfo>::empty(),
            self.sources() == Map::<Seq<char>, Seq<u64>>::empty(),
            self.used() == Set::<Seq<char>>::empty(),
    {
        assert(self.notaries() =~= Map::<Seq<char>, NotaryInfo>::empty());
        assert(keyed_map(self.source_list(), source_key()) =~= Map::<Seq<char>, SourceIds>::empty());
        assert(self.sources() =~= Map::<Seq<char>, Seq<u64>>::empty());
        assert(self.used() =~= Set::<Seq<char>>::empty());
    }

    /// A registry owned by `owner`, with no notaries and no attestations,
    /// checking proofs against `vk`.
    pub fn new(owner: String, vk: VerificationKey) -> (r: Self)
        ensures
            r.wf(),
            r.owner_id() == owner@,
            r.notaries() == Map::<Seq<char>, NotaryInfo>::empty(),
            r.notary_list() == Seq::<NotaryInfo>::empty(),
            r.attestation_log() == Seq::<Attestation>::empty(),
            r.sources() == Map::<Seq<char>, Seq<u64>>::empty(),
            r.used() == Set::<Seq<char>>::empty(),
            r.vk() == vk,
    {
        let r = TlsOracle {
            owner,
            trusted_notaries: Vec::new(),
            attestations: Vec::new(),
            attestations_by_source: Vec::new(),
            used_commitments: Vec::new(),
            attestation_count: 0,
            vk,
        };
        proof {
            r.lemma_empty_maps();
        }
        r
    }

    /// Starts over on fresh, empty collections, leaving all earlier data behind.
    pub fn migrate(owner: String, vk: VerificationKey) -> (r: Self)
        ensures
            r.wf(),
            r.owner_id() == owner@,
            r.notaries() == Map::<Seq<char>, NotaryInfo>::empty(),
            r.notary_list() == Seq::<NotaryInfo>::empty(),
            r.attestation_log() == Seq::<Attestation>::empty(),
            r.sources() == Map::<Seq<char>, Seq<u64>>::empty(),
            r.used() == Set::<Seq<char>>::empty(),
            r.vk() == vk,
    {
        Self::new(owner, vk)
    }

    /// The position of the notary with key hash `h`.
    fn find_notary(&self, h: &String) -> (r: Option<usize>)
        requires
            self.wf(),
        ensures
            match r {
                Some(i) => i < self.trusted_notaries@.len() && self.trusted_notaries@[i as int].pubkey_hash@ == h@,
                None => !self.notaries().contains_key(h@),
            },
    {
        let mut i: usize = 0;
        while i < self.trusted_notaries.len()
            invariant
                0 <= i <= self.trusted_notaries@.len(),
                forall|k: int| 0 <= k < i ==> (#[trigger] self.trusted_notaries@[k]).pubkey_hash@ != h@,
            decreases self.trusted_notaries@.len() - i,
        {
            if self.trusted_notaries[i].pubkey_hash == *h {
                return Some(i);
            }
            i = i + 1;
        }
        proof {
            if has_key(self.trusted_notaries@, notary_key(), h@) {
                let k = choose|k: int| 0 <= k < self.trusted_notaries@.len() && notary_key()(#[trigger] self.trusted_notaries@[k]) == h@;
                assert(self.trusted_notaries@[k].pubkey_hash@ == h@);
            }
        }
        None
    }

    /// Adds a notary, or updates the name, url and (when given) raw key of the
    /// one with this key hash. Only the owner may.
    pub fn add_notary(
        &mut self,
        caller: &String,
        block_height: u64,
        pubkey_hash: String,
        name: String,
        url: String,
        raw_pubkey: Option<String>,
    ) -> (r: Result<(), OracleError>)
        requires
            old(self).wf(),
        ensures
            final(self).wf(),
            caller@ != old(self).owner_id() ==> r == Err::<(), OracleError>(OracleError::Unauthorized),
            caller@ == old(self).owner_id() && (raw_pubkey matches Some(k) && !raw_key_ok(k))
                ==> r == Err::<(), OracleError>(OracleError::InvalidRawPubkey),
            r is Err ==> *final(self) == *old(self),
            r is Ok <==> caller@ == old(self).owner_id() && match raw_pubkey {
                Some(k) => raw_key_ok(k),
                None => true,
            },
            r is Ok ==> final(self).notary_list().len() == old(self).notary_list().len() + if old(self).notaries().contains_key(pubkey_hash@) {
                0int
            } else {
                1int
            },
            r is Ok ==> final(self).notaries() == old(self).notaries().insert(
                pubkey_hash@,
                if old(self).notaries().contains_key(pubkey_hash@) {
                    let prev = old(self).notaries()[pubkey_hash@];
                    NotaryInfo {
                        pubkey_hash: prev.pubkey_hash,
                        raw_pubkey: if raw_pubkey is Some { raw_pubkey } else { prev.raw_pubkey },
                        name,
                        url,
                        added_by: prev.added_by,
                        added_at: prev.added_at,
                    }
                } else {
                    NotaryInfo { pubkey_hash, raw_pubkey, name, url, added_by: *caller, added_at: block_height }
                },
            ),
            r is Ok ==> final(self).owner_id() == old(self).owner_id()
                && final(self).attestation_log() == old(self).attestation_log()
                && final(self).sources() == old(self).sources()
                && final(self).used() == old(self).used()
                && final(self).vk() == old(self).vk(),
    {
        if *caller != self.owner {
            return Err(OracleError::Unauthorized);
        }
        match &raw_pubkey {
            Some(k) => {
                let b = k.as_str().as_bytes();
                if b.len() != RAW_PUBKEY_HEX_LEN || !all_hex(b) {
                    return Err(OracleError::InvalidRawPubkey);
                }
            },
            None => {},
        }
        let ghost old_self = *self;
        match self.find_notary(&pubkey_hash) {
            Some(i) => {
                let prev = &self.trusted_notaries[i];
                let info = NotaryInfo {
                    pubkey_hash: prev.pubkey_hash.clone(),
                    raw_pubkey: match raw_pubkey {
                        Some(k) => Some(k),
                        None => clone_opt_string(&prev.raw_pubkey),
                    },
                    name,
                    url,
                    added_by: prev.added_by.clone(),
                    added_at: prev.added_at,
                };
                proof {
                    lemma_keyed_get(self.trusted_notaries@, notary_key(), i as int);
                    lemma_keyed_update(self.trusted_notaries@, notary_key(), i as int, info);
                }
                self.trusted_notaries.set(i, info);
            },
            None => {
                let info = NotaryInfo {
                    pubkey_hash,
                    raw_pubkey,
                    name,
                    url,
                    added_by: caller.clone(),
                    added_at: block_height,
                };
                proof {
                    lemma_keyed_push(self.trusted_notaries@, notary_key(), info);
                }
                self.trusted_notaries.push(info);
            },
        }
        proof {
            assert(self.used() =~= old_self.used());
            assert forall|i: int| 0 <= i < self.trusted_notaries@.len() implies match (#[trigger] self.trusted_notaries@[i]).raw_pubkey {
                Some(k) => raw_key_ok(k),
                None => true,
            } by {
                if i < old_self.trusted_notaries@.len() {
                    assert(old_self.wf());
                }
            }
        }
        Ok(())
    }

    /// Removes the notary with this key hash. Only the owner may. Attestations
    /// already accepted stay.
    pub fn remove_notary(&mut self, caller: &String, pubkey_hash: String) -> (r: Result<(), OracleError>)
        requires
            old(self).wf(),
        ensures
            final(self).wf(),
            caller@ != old(self).owner_id() ==> r == Err::<(), OracleError>(OracleError::Unauthorized),
            caller@ == old(self).owner_id() && !old(self).notaries().contains_key(pubkey_hash@)
                ==> r == Err::<(), OracleError>(OracleError::NotaryNotFound),
            r is Err ==> *final(self) == *old(self),
            r is Ok <==> caller@ == old(self).owner_id() && old(self).notaries().contains_key(pubkey_hash@),
            r is Ok ==> final(self).notary_list().len() + 1 == old(self).notary_list().len(),
            r is Ok ==> final(self).notaries() == old(self).notaries().remove(pubkey_hash@)
                && final(self).owner_id() == old(self).owner_id()
                && final(self).attestation_log() == old(self).attestation_log()
                && final(self).sources() == old(self).sources()
                && final(self).used() == old(self).used()
                && final(self).vk() == old(self).vk(),
    {
        if *caller != self.owner {
            return Err(OracleError::Unauthorized);
        }
        let ghost old_self = *self;
        match self.find_notary(&pubkey_hash) {
            Some(i) => {
                proof {
                    lemma_keyed_remove(self.trusted_notaries@, notary_key(), i as int);
                }
                let _removed = self.trusted_notaries.remove(i);
                proof {
                    assert(self.used() =~= old_self.used());
                    assert forall|k: int| 0 <= k < self.trusted_notaries@.len() implies match (#[trigger] self.trusted_notaries@[k]).raw_pubkey {
                        Some(key) => raw_key_ok(key),
                        None => true,
                    } by {
                        let k2 = if k < i { k } else { k + 1 };
                        assert(self.trusted_notaries@[k] == old_self.trusted_notaries@[k2]);
                    }
                }
                Ok(())
            },
            None => Err(OracleError::NotaryNotFound),
        }
    }

    /// Hands ownership to `new_owner`. Only the owner may.
    pub fn set_owner(&mut self, caller: &String, new_owner: String) -> (r: Result<(), OracleError>)
        requires
            old(self).wf(),
        ensures
            final(self).wf(),
            caller@ != old(self).owner_id() <==> r == Err::<(), OracleError>(OracleError::Unauthorized),
            r is Ok <==> caller@ == old(self).owner_id(),
            r is Err ==> *final(self) == *old(self),
            r is Ok ==> final(self).owner_id() == new_owner@
                && final(self).notary_list() == old(self).notary_list()
                && final(self).attestation_log() == old(self).attestation_log()
                && final(self).sources() == old(self).sources()
                && final(self).used() == old(self).used()
                && final(self).vk() == old(self).vk(),
    {
        if *caller != self.owner {
            return Err(OracleError::Unauthorized);
        }
        let ghost old_self = *self;
        self.owner = new_owner;
        proof {
            assert(self.used() =~= old_self.used());
        }
        Ok(())
    }
}

/// The proof that the decimal strings spell; `proof_b` holds each G2
/// coordinate as `[real, imaginary]`, stored imaginary part first.
pub open spec fn decoded_proof(proof_a: [String; 2], proof_b: [[String; 2]; 2], proof_c: [String; 2]) -> Proof {
    Proof {
        a: G1Point { x: decoded_field(str_bytes(proof_a@[0])), y: decoded_field(str_bytes(proof_a@[1])) },
        b: G2Point {
            x_im: decoded_field(str_bytes(proof_b@[0]@[1])),
            x_re: decoded_field(str_bytes(proof_b@[0]@[0])),
            y_im: decoded_field(str_bytes(proof_b@[1]@[1])),
            y_re: decoded_field(str_bytes(proof_b@[1]@[0])),
        },
        c: G1Point { x: decoded_field(str_bytes(proof_c@[0])), y: decoded_field(str_bytes(proof_c@[1])) },
    }
}

/// The scalars that the public signals spell, in order.
pub open spec fn decoded_signals(public_signals: [String; 4]) -> Seq<Scalar> {
    Seq::new(4, |i: int| Scalar(decoded_field(str_bytes(public_signals@[i]))))
}

/// The refusal, if any, of the checks made before any cryptography: sizes,
/// freshness against `now` (seconds), the timestamp signal, the notary, replay.
pub open spec fn precheck_outcome(
    s: TlsOracle,
    now: int,
    source_url: String,
    timestamp: u64,
    response_data: String,
    public_signals: [String; 4],
) -> Option<OracleError> {
    if str_bytes(response_data).len() > MAX_RESPONSE_BYTES {
        Some(OracleError::ResponseTooLarge)
    } else if str_bytes(source_url).len() > MAX_SOURCE_URL_BYTES {
        Some(OracleError::SourceUrlTooLong)
    } else if timestamp > now + FUTURE_TOLERANCE_SECS {
        Some(OracleError::FutureTimestamp)
    } else if timestamp + MAX_ATTESTATION_AGE_SECS < now {
        Some(OracleError::StaleTimestamp)
    } else if str_bytes(public_signals@[SIGNAL_TIMESTAMP as int]) != decimal_digits(timestamp as nat) {
        Some(OracleError::TimestampMismatch)
    } else if !s.notaries().contains_key(public_signals@[SIGNAL_NOTARY_PUBKEY_HASH as int]@) {
        Some(OracleError::UnknownNotary)
    } else if s.used().contains(public_signals@[SIGNAL_DATA_COMMITMENT as int]@) {
        Some(OracleError::Replay)
    } else {
        None
    }
}

/// The registry's error for a signature refusal.
pub open spec fn signature_error(e: SignatureError) -> OracleError {
    match e {
        SignatureError::Malformed => OracleError::MalformedSignature,
        SignatureError::InvalidSignature => OracleError::InvalidSignature,
        SignatureError::KeyMismatch => OracleError::SignatureKeyMismatch,
    }
}

/// The registry's error for a proof that could not be checked.
pub open spec fn groth16_error(e: Groth16Error) -> OracleError {
    match e {
        Groth16Error::InputLengthMismatch => OracleError::InputLengthMismatch,
        Groth16Error::HostFailure => OracleError::HostFailure,
    }
}

/// What a submission comes to: the id it gets, or the first check it fails,
/// in the order prechecks, notary raw key, signature, proof.
pub open spec fn submission_outcome(
    s: TlsOracle,
    block_timestamp: u64,
    source_url: String,
    server_name: String,
    timestamp: u64,
    response_data: String,
    proof_a: [String; 2],
    proof_b: [[String; 2]; 2],
    proof_c: [String; 2],
    public_signals: [String; 4],
    notary_signature: String,
    notary_sig_v: u8,
) -> Result<u64, OracleError> {
    let now = (block_timestamp / NANOS_PER_SEC) as int;
    match precheck_outcome(s, now, source_url, timestamp, response_data, public_signals) {
        Some(e) => Err(e),
        None => {
            let notary = s.notaries()[public_signals@[SIGNAL_NOTARY_PUBKEY_HASH as int]@];
            match notary.raw_pubkey {
                None => Err(OracleError::NotaryMissingRawKey),
                Some(raw) => {
                    let hash = sha256_of(sign_preimage(str_bytes(source_url), str_bytes(server_name), timestamp, str_bytes(response_data)));
                    match signature_outcome(str_bytes(raw), hash, str_bytes(notary_signature), notary_sig_v) {
                        Err(e) => Err(signature_error(e)),
                        Ok(()) => match groth16_outcome(s.vk(), decoded_proof(proof_a, proof_b, proof_c), decoded_signals(public_signals)) {
                            Err(e) => Err(groth16_error(e)),
                            Ok(false) => Err(OracleError::InvalidProof),
                            Ok(true) => Ok(s.attestation_log().len() as u64),
                        },
                    }
                },
            }
        },
    }
}

/// The record an accepted submission stores.
pub open spec fn accepted_record(
    id: u64,
    caller: String,
    block_height: u64,
    source_url: String,
    server_name: String,
    timestamp: u64,
    response_data: String,
    public_signals: [String; 4],
) -> Attestation {
    Attestation {
        id,
        source_url,
        server_name,
        timestamp,
        response_data,
        data_commitment: public_signals@[SIGNAL_DATA_COMMITMENT as int],
        server_name_hash: public_signals@[SIGNAL_SERVER_NAME_HASH as int],
        notary_pubkey_hash: public_signals@[SIGNAL_NOTARY_PUBKEY_HASH as int],
        submitter: caller,
        block_height,
        sig_verified: true,
    }
}

/// The page size a listing uses: 20 when none is given, at most 100.
pub open spec fn page_size(limit: Option<u64>) -> int {
    let l = match limit {
        Some(l) => l,
        None => DEFAULT_PAGE_SIZE,
    };
    if l > MAX_PAGE_SIZE {
        MAX_PAGE_SIZE as int
    } else {
        l as int
    }
}

/// The attestations a listing returns: newest first from `from_index`
/// (the newest when not given), walking down until the page is full or
/// id 0 is reached.
pub open spec fn listing(log: Seq<Attestation>, from_index: Option<u64>, limit: Option<u64>) -> Seq<Attestation> {
    let n = log.len() as int;
    if n == 0 {
        Seq::empty()
    } else {
        let from = match from_index {
            Some(f) => f as int,
            None => n - 1,
        };
        let lim = page_size(limit);
        let top = if from < n { from } else { n - 1 };
        let count = if lim < top + 1 { lim } else { top + 1 };
        Seq::new(count as nat, |k: int| log[top - k])
    }
}

/// The attestations of one source, newest first, one page of them.
pub open spec fn source_listing(log: Seq<Attestation>, ids: Seq<u64>, limit: Option<u64>) -> Seq<Attestation> {
    let lim = page_size(limit);
    let count = if lim < ids.len() { lim } else { ids.len() as int };
    Seq::new(count as nat, |k: int| log[ids[ids.len() - 1 - k] as int])
}

impl TlsOracle {
    /// Whether the data commitment `c` was used before.
    fn is_used(&self, c: &String) -> (r: bool)
        ensures
            r == self.used().contains(c@),
    {
        let mut i: usize = 0;
        while i < self.used_commitments.len()
            invariant
                0 <= i <= self.used_commitments@.len(),
                forall|k: int| 0 <= k < i ==> (#[trigger] self.used_commitments@[k])@ != c@,
            decreases self.used_commitments@.len() - i,
        {
            if self.used_commitments[i] == *c {
                return true;
            }
            i = i + 1;
        }
        false
    }

    /// The position of the per-source entry of `name`.
    fn find_source(&self, name: &String) -> (r: Option<usize>)
        ensures
            match r {
                Some(i) => i < self.attestations_by_source@.len() && self.attestations_by_source@[i as int].server_name@ == name@,
                None => !has_key(self.attestations_by_source@, source_key(), name@),
            },
    {
        let mut i: usize = 0;
        while i < self.attestations_by_source.len()
            invariant
                0 <= i <= self.attestations_by_source@.len(),
                forall|k: int| 0 <= k < i ==> (#[trigger] self.attestations_by_source@[k]).server_name@ != name@,
            decreases self.attestations_by_source@.len() - i,
        {
            if self.attestations_by_source[i].server_name == *name {
                return Some(i);
            }
            i = i + 1;
        }
        proof {
            if has_key(self.attestations_by_source@, source_key(), name@) {
                let k = choose|k: int| 0 <= k < self.attestations_by_source@.len() && source_key()(#[trigger] self.attestations_by_source@[k]) == name@;
                assert(self.attestations_by_source@[k].server_name@ == name@);
            }
        }
        None
    }

    /// Appends `id` to the ids of `server_name`.
    fn index_source(&mut self, server_name: String, id: u64)
        requires
            keys_unique(old(self).attestations_by_source@, source_key()),
            old(self).sources_ok(id as int),
            id < old(self).attestations@.len(),
            old(self).attestations@[id as int].server_name@ == server_name@,
        ensures
            keys_unique(final(self).attestations_by_source@, source_key()),
            final(self).sources() == old(self).sources().insert(server_name@, old(self).source_ids(server_name@).push(id)),
            final(self).sources_ok(id + 1),
            final(self).owner == old(self).owner,
            final(self).trusted_notaries == old(self).trusted_notaries,
            final(self).attestations == old(self).attestations,
            final(self).used_commitments == old(self).used_commitments,
            final(self).attestation_count == old(self).attestation_count,
            final(self).vk == old(self).vk,
    {
        let ghost old_list = self.attestations_by_source@;
        match self.find_source(&server_name) {
            Some(i) => {
                let mut ids = copy_ids(&self.attestations_by_source[i].ids);
                ids.push(id);
                let entry = SourceIds { server_name, ids };
                proof {
                    lemma_keyed_get(old_list, source_key(), i as int);
                    lemma_keyed_update(old_list, source_key(), i as int, entry);
                }
                self.attestations_by_source.set(i, entry);
                proof {
                    assert(self.sources() =~= old(self).sources().insert(server_name@, old(self).source_ids(server_name@).push(id)));
                    let new_ids = self.attestations_by_source@[i as int].ids@;
                    assert(new_ids == old_list[i as int].ids@.push(id));
                    assert forall|a: int, j: int| 0 <= a < self.attestations_by_source@.len() && 0 <= j < self.attestations_by_source@[a].ids@.len()
                        implies {
                            let v = #[trigger] self.attestations_by_source@[a].ids@[j];
                            &&& v < id + 1
                            &&& v < self.attestations@.len()
                            &&& self.attestations@[v as int].server_name@ == self.attestations_by_source@[a].server_name@
                        } by {
                        if a != i as int {
                            assert(self.attestations_by_source@[a] == old_list[a]);
                        } else if j < old_list[a].ids@.len() {
                            assert(new_ids[j] == old_list[a].ids@[j]);
                        }
                    }
                    assert forall|a: int, j: int, k: int| 0 <= a < self.attestations_by_source@.len() && 0 <= j < k < self.attestations_by_source@[a].ids@.len()
                        implies #[trigger] self.attestations_by_source@[a].ids@[j] < #[trigger] self.attestations_by_source@[a].ids@[k] by {
                        if a != i as int {
                            assert(self.attestations_by_source@[a] == old_list[a]);
                        } else {
                            assert(new_ids[j] == old_list[a].ids@[j]);
                            if k < old_list[a].ids@.len() {
                                assert(new_ids[k] == old_list[a].ids@[k]);
                            }
                        }
                    }
                }
            },
            None => {
                let mut ids: Vec<u64> = Vec::new();
                ids.push(id);
                let entry = SourceIds { server_name, ids };
                proof {
                    lemma_keyed_push(old_list, source_key(), entry);
                }
                self.attestations_by_source.push(entry);
                proof {
                    assert(self.sources() =~= old(self).sources().insert(server_name@, old(self).source_ids(server_name@).push(id)));
                    assert forall|a: int, j: int| 0 <= a < self.attestations_by_source@.len() && 0 <= j < self.attestations_by_source@[a].ids@.len()
                        implies {
                            let v = #[trigger] self.attestations_by_source@[a].ids@[j];
                            &&& v < id + 1
                            &&& v < self.attestations@.len()
                            &&& self.attestations@[v as int].server_name@ == self.attestations_by_source@[a].server_name@
                        } by {
                        if a < old_list.len() {
                            assert(self.attestations_by_source@[a] == old_list[a]);
                        }
                    }
                    assert forall|a: int, j: int, k: int| 0 <= a < self.attestations_by_source@.len() && 0 <= j < k < self.attestations_by_source@[a].ids@.len()
                        implies #[trigger] self.attestations_by_source@[a].ids@[j] < #[trigger] self.attestations_by_source@[a].ids@[k] by {
                        if a < old_list.len() {
                            assert(self.attestations_by_source@[a] == old_list[a]);
                        }
                    }
                }
            },
        }
    }
}

/// Decodes a proof from its decimal strings; `proof_b` holds each G2
/// coordinate as `[real, imaginary]`.
pub fn decode_proof(proof_a: &[String; 2], proof_b: &[[String; 2]; 2], proof_c: &[String; 2]) -> (r: Proof)
    ensures
        r == decoded_proof(*proof_a, *proof_b, *proof_c),
{
    Proof {
        a: G1Point::from_decimal(proof_a[0].as_str(), proof_a[1].as_str()),
        b: G2Point {
            x_im: crate::bn254::decimal_to_le_bytes(proof_b[0][1].as_str()),
            x_re: crate::bn254::decimal_to_le_bytes(proof_b[0][0].as_str()),
            y_im: crate::bn254::decimal_to_le_bytes(proof_b[1][1].as_str()),
            y_re: crate::bn254::decimal_to_le_bytes(proof_b[1][0].as_str()),
        },
        c: G1Point::from_decimal(proof_c[0].as_str(), proof_c[1].as_str()),
    }
}

/// Decodes the public signals to scalars, in order.
pub fn decode_signals(public_signals: &[String; 4]) -> (r: Vec<Scalar>)
    ensures
        r@ == decoded_signals(*public_signals),
{
    let mut out: Vec<Scalar> = Vec::new();
    let mut i: usize = 0;
    while i < 4
        invariant
            0 <= i <= 4,
            out@.len() == i,
            forall|k: int| 0 <= k < i ==> out@[k] == decoded_signals(*public_signals)[k],
        decreases 4 - i,
    {
        out.push(Scalar::from_decimal(public_signals[i].as_str()));
        i = i + 1;
    }
    assert(out@ =~= decoded_signals(*public_signals));
    out
}

/// The decimal spelling of `n`, as ASCII bytes.
fn decimal_of_u64(n: u64) -> (r: Vec<u8>)
    ensures
        r@ == decimal_digits(n as nat),
    decreases n,
{
    if n < 10 {
        let mut v: Vec<u8> = Vec::new();
        v.push(48 + n as u8);
        assert(v@ =~= decimal_digits(n as nat));
        v
    } else {
        let mut v = decimal_of_u64(n / 10);
        v.push(48 + (n % 10) as u8);
        v
    }
}

/// A copy of an attestation.
fn copy_attestation(a: &Attestation) -> (r: Attestation)
    ensures
        r == *a,
{
    Attestation {
        id: a.id,
        source_url: a.source_url.clone(),
        server_name: a.server_name.clone(),
        timestamp: a.timestamp,
        response_data: a.response_data.clone(),
        data_commitment: a.data_commitment.clone(),
        server_name_hash: a.server_name_hash.clone(),
        notary_pubkey_hash: a.notary_pubkey_hash.clone(),
        submitter: a.submitter.clone(),
        block_height: a.block_height,
        sig_verified: a.sig_verified,
    }
}

/// A copy of a notary entry.
fn copy_notary(n: &NotaryInfo) -> (r: NotaryInfo)
    ensures
        r == *n,
{
    NotaryInfo {
        pubkey_hash: n.pubkey_hash.clone(),
        raw_pubkey: clone_opt_string(&n.raw_pubkey),
        name: n.name.clone(),
        url: n.url.clone(),
        added_by: n.added_by.clone(),
        added_at: n.added_at,
    }
}

impl TlsOracle {
    /// Submits an attestation by `caller` at a block of the given timestamp
    /// (nanoseconds) and height. The checks run in a fixed order and the first
    /// that fails refuses the call with nothing changed; on success the record
    /// gets the next id, its commitment is marked used and the id is indexed
    /// under its server name.
    pub fn submit_attestation(
        &mut self,
        caller: &String,
        block_timestamp: u64,
        block_height: u64,
        source_url: String,
        server_name: String,
        timestamp: u64,
        response_data: String,
        proof_a: [String; 2],
        proof_b: [[String; 2]; 2],
        proof_c: [String; 2],
        public_signals: [String; 4],
        notary_signature: String,
        notary_sig_v: u8,
    ) -> (r: Result<u64, OracleError>)
        requires
            old(self).wf(),
            old(self).attestation_log().len() < u64::MAX,
        ensures
            final(self).wf(),
            r == submission_outcome(
                *old(self),
                block_timestamp,
                source_url,
                server_name,
                timestamp,
                response_data,
                proof_a,
                proof_b,
                proof_c,
                public_signals,
                notary_signature,
                notary_sig_v,
            ),
            r is Err ==> *final(self) == *old(self),
            r matches Ok(id) ==> {
                &&& id == old(self).attestation_log().len()
                &&& final(self).attestation_log() == old(self).attestation_log().push(
                    accepted_record(id, *caller, block_height, source_url, server_name, timestamp, response_data, public_signals),
                )
                &&& final(self).used() == old(self).used().insert(public_signals@[SIGNAL_DATA_COMMITMENT as int]@)
                &&& final(self).sources() == old(self).sources().insert(
                    server_name@,
                    old(self).source_ids(server_name@).push(id),
                )
                &&& final(self).notary_list() == old(self).notary_list()
                &&& final(self).owner_id() == old(self).owner_id()
                &&& final(self).vk() == old(self).vk()
            },
    {
        let ghost old_self = *self;
        let now: u64 = block_timestamp / NANOS_PER_SEC;
        if response_data.as_str().as_bytes().len() > MAX_RESPONSE_BYTES {
            return Err(OracleError::ResponseTooLarge);
        }
        if source_url.as_str().as_bytes().len() > MAX_SOURCE_URL_BYTES {
            return Err(OracleError::SourceUrlTooLong);
        }
        if timestamp > now + FUTURE_TOLERANCE_SECS {
            return Err(OracleError::FutureTimestamp);
        }
        if timestamp + MAX_ATTESTATION_AGE_SECS < now {
            return Err(OracleError::StaleTimestamp);
        }
        let digits = decimal_of_u64(timestamp);
        if !bytes_equal(public_signals[SIGNAL_TIMESTAMP].as_str().as_bytes(), digits.as_slice()) {
            return Err(OracleError::TimestampMismatch);
        }
        let idx = match self.find_notary(&public_signals[SIGNAL_NOTARY_PUBKEY_HASH]) {
            Some(i) => i,
            None => {
                return Err(OracleError::UnknownNotary);
            },
        };
        if self.is_used(&public_signals[SIGNAL_DATA_COMMITMENT]) {
            return Err(OracleError::Replay);
        }
        proof {
            lemma_keyed_get(self.trusted_notaries@, notary_key(), idx as int);
        }
        let raw = match &self.trusted_notaries[idx].raw_pubkey {
            Some(k) => k,
            None => {
                return Err(OracleError::NotaryMissingRawKey);
            },
        };
        let message_hash = build_sign_message(
            source_url.as_str(),
            server_name.as_str(),
            timestamp,
            response_data.as_str(),
        );
        match verify_notary_signature(raw.as_str(), &message_hash, notary_signature.as_str(), notary_sig_v) {
            Ok(()) => {},
            Err(SignatureError::Malformed) => {
                return Err(OracleError::MalformedSignature);
            },
            Err(SignatureError::InvalidSignature) => {
                return Err(OracleError::InvalidSignature);
            },
            Err(SignatureError::KeyMismatch) => {
                return Err(OracleError::SignatureKeyMismatch);
            },
        }
        let proof = decode_proof(&proof_a, &proof_b, &proof_c);
        let inputs = decode_signals(&public_signals);
        match verify(&self.vk, &proof, inputs.as_slice()) {
            Ok(true) => {},
            Ok(false) => {
                return Err(OracleError::InvalidProof);
            },
            Err(Groth16Error::InputLengthMismatch) => {
                return Err(OracleError::InputLengthMismatch);
            },
            Err(Groth16Error::HostFailure) => {
                return Err(OracleError::HostFailure);
            },
        }
        self.used_commitments.push(public_signals[SIGNAL_DATA_COMMITMENT].clone());
        let id = self.attestation_count;
        self.attestation_count = id + 1;
        let record = Attestation {
            id,
            source_url,
            server_name: server_name.clone(),
            timestamp,
            response_data,
            data_commitment: public_signals[SIGNAL_DATA_COMMITMENT].clone(),
            server_name_hash: public_signals[SIGNAL_SERVER_NAME_HASH].clone(),
            notary_pubkey_hash: public_signals[SIGNAL_NOTARY_PUBKEY_HASH].clone(),
            submitter: caller.clone(),
            block_height,
            sig_verified: true,
        };
        self.attestations.push(record);
        proof {
            assert forall|a: int, j: int| 0 <= a < self.attestations_by_source@.len() && 0 <= j < self.attestations_by_source@[a].ids@.len()
                implies {
                    let v = #[trigger] self.attestations_by_source@[a].ids@[j];
                    &&& v < id
                    &&& v < self.attestations@.len()
                    &&& self.attestations@[v as int].server_name@ == self.attestations_by_source@[a].server_name@
                } by {
                let v = self.attestations_by_source@[a].ids@[j];
                assert(self.attestations@[v as int] == old_self.attestations@[v as int]);
            }
        }
        self.index_source(server_name, id);
        proof {
            assert(self.used() =~= old_self.used().insert(public_signals@[SIGNAL_DATA_COMMITMENT as int]@)) by {
                assert forall|c: Seq<char>| self.used().contains(c) <==> old_self.used().contains(c) || c == public_signals@[SIGNAL_DATA_COMMITMENT as int]@ by {
                    if old_self.used().contains(c) {
                        let i = choose|i: int| 0 <= i < old_self.used_commitments@.len() && (#[trigger] old_self.used_commitments@[i])@ == c;
                        assert(self.used_commitments@[i] == old_self.used_commitments@[i]);
                    }
                    if c == public_signals@[SIGNAL_DATA_COMMITMENT as int]@ {
                        assert(self.used_commitments@[old_self.used_commitments@.len() as int]@ == c);
                    }
                    if self.used().contains(c) {
                        let i = choose|i: int| 0 <= i < self.used_commitments@.len() && (#[trigger] self.used_commitments@[i])@ == c;
                        if i < old_self.used_commitments@.len() {
                            assert(old_self.used_commitments@[i] == self.used_commitments@[i]);
                        }
                    }
                }
            }
            assert(self.attestations@ =~= old_self.attestations@.push(
                accepted_record(id, *caller, block_height, source_url, server_name, timestamp, response_data, public_signals),
            ));
        }
        Ok(id)
    }

    /// The attestation with id `id`, if there is one.
    pub fn get_attestation(&self, id: u64) -> (r: Option<Attestation>)
        requires
            self.wf(),
        ensures
            r == if id < self.attestation_log().len() {
                Some(self.attestation_log()[id as int])
            } else {
                None::<Attestation>
            },
    {
        let n = self.attestations.len();
        if id < self.attestation_count {
            assert(id < n);
            Some(copy_attestation(&self.attestations[id as usize]))
        } else {
            None
        }
    }

    /// A page of attestations, newest first: see `listing`.
    pub fn get_attestations(&self, from_index: Option<u64>, limit: Option<u64>) -> (r: Vec<Attestation>)
        requires
            self.wf(),
        ensures
            r@ == listing(self.attestation_log(), from_index, limit),
    {
        let total = self.attestation_count;
        let n = self.attestations.len();
        assert(total as int == n as int);
        if total == 0 {
            return Vec::new();
        }
        let wanted = match limit {
            Some(l) => l,
            None => DEFAULT_PAGE_SIZE,
        };
        let lim = if wanted > MAX_PAGE_SIZE { MAX_PAGE_SIZE } else { wanted };
        let from = match from_index {
            Some(f) => f,
            None => total - 1,
        };
        let mut result: Vec<Attestation> = Vec::new();
        let top = if from < total { from } else { total - 1 };
        let count = if lim < top + 1 { lim } else { top + 1 };
        let mut k: u64 = 0;
        while k < count
            invariant
                self.wf(),
                total as int == self.attestations@.len(),
                total as int == n as int,
                top < total,
                count <= top + 1,
                0 <= k <= count,
                result@.len() == k,
                forall|j: int| 0 <= j < k ==> result@[j] == self.attestations@[top - j],
            decreases count - k,
        {
            result.push(copy_attestation(&self.attestations[(top - k) as usize]));
            k = k + 1;
        }
        proof {
            assert(result@ =~= listing(self.attestation_log(), from_index, limit));
        }
        result
    }

    /// A page of the attestations of `server_name`, newest first.
    pub fn get_attestations_by_source(&self, server_name: String, limit: Option<u64>) -> (r: Vec<Attestation>)
        requires
            self.wf(),
        ensures
            r@ == source_listing(self.attestation_log(), self.source_ids(server_name@), limit),
            forall|k: int| 0 <= k < r@.len() ==> (#[trigger] r@[k]).server_name@ == server_name@,
            forall|j: int, k: int| 0 <= j < k < r@.len() ==> #[trigger] r@[j].id > #[trigger] r@[k].id,
    {
        let wanted = match limit {
            Some(l) => l,
            None => DEFAULT_PAGE_SIZE,
        };
        let lim = if wanted > MAX_PAGE_SIZE { MAX_PAGE_SIZE } else { wanted };
        let mut result: Vec<Attestation> = Vec::new();
        let i = match self.find_source(&server_name) {
            Some(i) => i,
            None => {
                proof {
                    assert(!self.sources().contains_key(server_name@));
                    assert(result@ =~= source_listing(self.attestation_log(), self.source_ids(server_name@), limit));
                }
                return result;
            },
        };
        proof {
            lemma_keyed_get(self.attestations_by_source@, source_key(), i as int);
        }
        let ids = &self.attestations_by_source[i].ids;
        assert(ids@ == self.source_ids(server_name@));
        let n = ids.len();
        let count: usize = if (lim as usize) < n && lim <= MAX_PAGE_SIZE { lim as usize } else { n };
        let mut k: usize = 0;
        let total = self.attestations.len();
        while k < count
            invariant
                self.wf(),
                total as int == self.attestations@.len(),
                i < self.attestations_by_source@.len(),
                ids@ == self.attestations_by_source@[i as int].ids@,
                n == ids@.len(),
                count <= n,
                0 <= k <= count,
                result@.len() == k,
                forall|j: int| 0 <= j < k ==> result@[j] == self.attestations@[ids@[n - 1 - j] as int],
            decreases count - k,
        {
            let id = ids[n - 1 - k];
            assert(id < self.attestation_count);
            assert(id < total);
            result.push(copy_attestation(&self.attestations[id as usize]));
            k = k + 1;
        }
        proof {
            assert(result@ =~= source_listing(self.attestation_log(), self.source_ids(server_name@), limit));
            assert forall|k: int| 0 <= k < result@.len() implies (#[trigger] result@[k]).server_name@ == server_name@ by {
                assert(self.attestations_by_source@[i as int].ids@[n - 1 - k] == ids@[n - 1 - k]);
            }
            assert forall|j: int, k: int| 0 <= j < k < result@.len() implies #[trigger] result@[j].id > #[trigger] result@[k].id by {
                let x = n - 1 - k;
                let y = n - 1 - j;
                assert(self.attestations_by_source@[i as int].ids@[x] < self.attestations_by_source@[i as int].ids@[y]);
                assert(self.attestations@[ids@[x] as int].id == ids@[x]);
                assert(self.attestations@[ids@[y] as int].id == ids@[y]);
            }
        }
        result
    }

    /// The notaries, in the order they are listed.
    pub fn get_notaries(&self) -> (r: Vec<NotaryInfo>)
        ensures
            r@ == self.notary_list(),
    {
        let mut out: Vec<NotaryInfo> = Vec::new();
        let mut i: usize = 0;
        while i < self.trusted_notaries.len()
            invariant
                0 <= i <= self.trusted_notaries@.len(),
                out@ == self.trusted_notaries@.subrange(0, i as int),
            decreases self.trusted_notaries@.len() - i,
        {
            out.push(copy_notary(&self.trusted_notaries[i]));
            i = i + 1;
            assert(out@ =~= self.trusted_notaries@.subrange(0, i as int));
        }
        assert(self.trusted_notaries@.subrange(0, self.trusted_notaries@.len() as int) =~= self.trusted_notaries@);
        out
    }

    /// The number of attestations and notaries, and the owner.
    pub fn get_stats(&self) -> (r: Stats)
        requires
            self.wf(),
        ensures
            r.attestation_count == self.attestation_log().len(),
            r.notary_count == self.notary_list().len(),
            r.owner@ == self.owner_id(),
    {
        Stats {
            attestation_count: self.attestation_count,
            notary_count: self.trusted_notaries.len() as u64,
            owner: self.owner.clone(),
        }
    }

    /// The owner.
    pub fn get_owner(&self) -> (r: String)
        ensures
            r@ == self.owner_id(),
    {
        self.owner.clone()
    }
}

/// In a well-formed registry the attestation at position `i` has id `i`.
pub proof fn law_ids_dense(s: TlsOracle)
    requires
        s.wf(),
    ensures
        forall|i: int| 0 <= i < s.attestation_log().len() ==> (#[trigger] s.attestation_log()[i]).id == i,
{
}

/// Listing the newest `n` of `n` attestations (a page holds at most 100)
/// gives ids `n - 1` down to `0`.
pub proof fn law_listing_descends(s: TlsOracle, n: u64)
    requires
        s.wf(),
        s.attestation_log().len() == n,
        1 <= n <= MAX_PAGE_SIZE,
    ensures
        listing(s.attestation_log(), None, Some(n)).len() == n,
        forall|k: int| 0 <= k < n ==> (#[trigger] listing(s.attestation_log(), None, Some(n))[k]).id == n - 1 - k,
{
    law_ids_dense(s);
    let l = listing(s.attestation_log(), None, Some(n));
    assert forall|k: int| 0 <= k < n implies (#[trigger] l[k]).id == n - 1 - k by {
        assert(l[k] == s.attestation_log()[n - 1 - k]);
    }
}

/// Accepted submissions made one after another from an empty log, each
/// getting the log's length as its id and growing the log by one, get the ids
/// `0, 1, 2, ...` in order.
pub proof fn law_ids_count_up(logs: Seq<Seq<Attestation>>, ids: Seq<u64>)
    requires
        logs.len() == ids.len() + 1,
        logs[0].len() == 0,
        forall|k: int| 0 <= k < ids.len() ==> #[trigger] ids[k] == logs[k].len() && logs[k + 1].len() == logs[k].len() + 1,
    ensures
        forall|k: int| 0 <= k < ids.len() ==> #[trigger] ids[k] == k,
    decreases ids.len(),
{
    if ids.len() > 0 {
        let n = ids.len() - 1;
        law_ids_count_up(logs.drop_last(), ids.drop_last());
        assert forall|k: int| 0 <= k < ids.len() implies #[trigger] ids[k] == k by {
            if k < n {
                assert(ids.drop_last()[k] == ids[k]);
            } else if n > 0 {
                assert(ids.drop_last()[n - 1] == ids[n - 1]);
                assert(ids[n - 1] == logs[n - 1].len() && logs[n].len() == logs[n - 1].len() + 1);
            }
        }
    }
}

/// A submission whose commitment is already used, and which passes the size,
/// freshness, timestamp-signal and notary checks that come first, is refused
/// as a replay, whatever its other fields.
pub proof fn law_replay_refused(
    s: TlsOracle,
    block_timestamp: u64,
    source_url: String,
    server_name: String,
    timestamp: u64,
    response_data: String,
    proof_a: [String; 2],
    proof_b: [[String; 2]; 2],
    proof_c: [String; 2],
    public_signals: [String; 4],
    notary_signature: String,
    notary_sig_v: u8,
)
    requires
        s.used().contains(public_signals@[SIGNAL_DATA_COMMITMENT as int]@),
        str_bytes(response_data).len() <= MAX_RESPONSE_BYTES,
        str_bytes(source_url).len() <= MAX_SOURCE_URL_BYTES,
        timestamp <= (block_timestamp / NANOS_PER_SEC) + FUTURE_TOLERANCE_SECS,
        timestamp + MAX_ATTESTATION_AGE_SECS >= (block_timestamp / NANOS_PER_SEC),
        str_bytes(public_signals@[SIGNAL_TIMESTAMP as int]) == decimal_digits(timestamp as nat),
        s.notaries().contains_key(public_signals@[SIGNAL_NOTARY_PUBKEY_HASH as int]@),
    ensures
        submission_outcome(s, block_timestamp, source_url, server_name, timestamp, response_data, proof_a, proof_b, proof_c, public_signals, notary_signature, notary_sig_v)
            == Err::<u64, OracleError>(OracleError::Replay),
{
}

/// A submission within the size caps whose timestamp is 601 seconds before
/// the block time is refused as stale, and one 61 seconds after it as lying
/// in the future, whatever its other fields.
pub proof fn law_freshness_window(
    s: TlsOracle,
    block_timestamp: u64,
    source_url: String,
    server_name: String,
    timestamp: u64,
    response_data: String,
    proof_a: [String; 2],
    proof_b: [[String; 2]; 2],
    proof_c: [String; 2],
    public_signals: [String; 4],
    notary_signature: String,
    notary_sig_v: u8,
)
    requires
        str_bytes(response_data).len() <= MAX_RESPONSE_BYTES,
        str_bytes(source_url).len() <= MAX_SOURCE_URL_BYTES,
    ensures
        timestamp + 601 == block_timestamp / NANOS_PER_SEC ==> submission_outcome(s, block_timestamp, source_url, server_name, timestamp, response_data, proof_a, proof_b, proof_c, public_signals, notary_signature, notary_sig_v)
            == Err::<u64, OracleError>(OracleError::StaleTimestamp),
        timestamp == block_timestamp / NANOS_PER_SEC + 61 ==> submission_outcome(s, block_timestamp, source_url, server_name, timestamp, response_data, proof_a, proof_b, proof_c, public_signals, notary_signature, notary_sig_v)
            == Err::<u64, OracleError>(OracleError::FutureTimestamp),
{
}

/// A fresh submission within the size caps whose timestamp signal is not the
/// decimal spelling of its timestamp is refused before any notary lookup,
/// signature or proof is looked at.
pub proof fn law_timestamp_signal_checked_first(
    s: TlsOracle,
    block_timestamp: u64,
    source_url: String,
    server_name: String,
    timestamp: u64,
    response_data: String,
    proof_a: [String; 2],
    proof_b: [[String; 2]; 2],
    proof_c: [String; 2],
    public_signals: [String; 4],
    notary_signature: String,
    notary_sig_v: u8,
)
    requires
        str_bytes(response_data).len() <= MAX_RESPONSE_BYTES,
        str_bytes(source_url).len() <= MAX_SOURCE_URL_BYTES,
        timestamp <= (block_timestamp / NANOS_PER_SEC) + FUTURE_TOLERANCE_SECS,
        timestamp + MAX_ATTESTATION_AGE_SECS >= (block_timestamp / NANOS_PER_SEC),
        str_bytes(public_signals@[SIGNAL_TIMESTAMP as int]) != decimal_digits(timestamp as nat),
    ensures
        submission_outcome(s, block_timestamp, source_url, server_name, timestamp, response_data, proof_a, proof_b, proof_c, public_signals, notary_signature, notary_sig_v)
            == Err::<u64, OracleError>(OracleError::TimestampMismatch),
{
}

/// Once a submission has passed every check before the proof, it is refused
/// for a mismatched verification key exactly when the key does not hold five
/// IC points, one more than the four public signals.
pub proof fn law_vk_arity(
    s: TlsOracle,
    block_timestamp: u64,
    source_url: String,
    server_name: String,
    timestamp: u64,
    response_data: String,
    proof_a: [String; 2],
    proof_b: [[String; 2]; 2],
    proof_c: [String; 2],
    public_signals: [String; 4],
    notary_signature: String,
    notary_sig_v: u8,
)
    requires
        precheck_outcome(s, (block_timestamp / NANOS_PER_SEC) as int, source_url, timestamp, response_data, public_signals) is None,
        ({
            let notary = s.notaries()[public_signals@[SIGNAL_NOTARY_PUBKEY_HASH as int]@];
            notary.raw_pubkey matches Some(raw) && signature_outcome(
                str_bytes(raw),
                sha256_of(sign_preimage(str_bytes(source_url), str_bytes(server_name), timestamp, str_bytes(response_data))),
                str_bytes(notary_signature),
                notary_sig_v,
            ) is Ok
        }),
    ensures
        (submission_outcome(s, block_timestamp, source_url, server_name, timestamp, response_data, proof_a, proof_b, proof_c, public_signals, notary_signature, notary_sig_v)
            == Err::<u64, OracleError>(OracleError::InputLengthMismatch)) <==> s.vk().ic@.len() != 5,
{
}

/// A fresh submission within the size caps whose timestamp signal matches,
/// but whose notary signal names no trusted notary, is refused before any
/// signature or proof is looked at.
pub proof fn law_unknown_notary_refused(
    s: TlsOracle,
    block_timestamp: u64,
    source_url: String,
    server_name: String,
    timestamp: u64,
    response_data: String,
    proof_a: [String; 2],
    proof_b: [[String; 2]; 2],
    proof_c: [String; 2],
    public_signals: [String; 4],
    notary_signature: String,
    notary_sig_v: u8,
)
    requires
        str_bytes(response_data).len() <= MAX_RESPONSE_BYTES,
        str_bytes(source_url).len() <= MAX_SOURCE_URL_BYTES,
        timestamp <= (block_timestamp / NANOS_PER_SEC) + FUTURE_TOLERANCE_SECS,
        timestamp + MAX_ATTESTATION_AGE_SECS >= (block_timestamp / NANOS_PER_SEC),
        str_bytes(public_signals@[SIGNAL_TIMESTAMP as int]) == decimal_digits(timestamp as nat),
        !s.notaries().contains_key(public_signals@[SIGNAL_NOTARY_PUBKEY_HASH as int]@),
    ensures
        submission_outcome(s, block_timestamp, source_url, server_name, timestamp, response_data, proof_a, proof_b, proof_c, public_signals, notary_signature, notary_sig_v)
            == Err::<u64, OracleError>(OracleError::UnknownNotary),
{
}

/// A submission that passes the checks before the signature, whose signature
/// is well formed and recovers a key other than the notary's, is refused as a
/// key mismatch whatever its proof.
pub proof fn law_signature_mismatch_refused(
    s: TlsOracle,
    block_timestamp: u64,
    source_url: String,
    server_name: String,
    timestamp: u64,
    response_data: String,
    proof_a: [String; 2],
    proof_b: [[String; 2]; 2],
    proof_c: [String; 2],
    public_signals: [String; 4],
    notary_signature: String,
    notary_sig_v: u8,
)
    requires
        precheck_outcome(s, (block_timestamp / NANOS_PER_SEC) as int, source_url, timestamp, response_data, public_signals) is None,
        ({
            let notary = s.notaries()[public_signals@[SIGNAL_NOTARY_PUBKEY_HASH as int]@];
            let sig = str_bytes(notary_signature);
            let hash = sha256_of(sign_preimage(str_bytes(source_url), str_bytes(server_name), timestamp, str_bytes(response_data)));
            &&& notary.raw_pubkey is Some
            &&& sig.len() == 128 && notary_sig_v <= 1 && is_hex(sig)
            &&& crate::host::secp256k1_recover_strict(hash, crate::signature::hex_decoded(sig), notary_sig_v) matches Some(k)
                && k != crate::signature::hex_decoded(str_bytes(notary.raw_pubkey->0))
        }),
    ensures
        submission_outcome(s, block_timestamp, source_url, server_name, timestamp, response_data, proof_a, proof_b, proof_c, public_signals, notary_signature, notary_sig_v)
            == Err::<u64, OracleError>(OracleError::SignatureKeyMismatch),
{
}

/// A submission that passes every check, with a signature that recovers the
/// notary's key and a proof that the pairing check accepts, gets the next id.
pub proof fn law_accepted_when_all_checks_pass(
    s: TlsOracle,
    block_timestamp: u64,
    source_url: String,
    server_name: String,
    timestamp: u64,
    response_data: String,
    proof_a: [String; 2],
    proof_b: [[String; 2]; 2],
    proof_c: [String; 2],
    public_signals: [String; 4],
    notary_signature: String,
    notary_sig_v: u8,
)
    requires
        precheck_outcome(s, (block_timestamp / NANOS_PER_SEC) as int, source_url, timestamp, response_data, public_signals) is None,
        ({
            let notary = s.notaries()[public_signals@[SIGNAL_NOTARY_PUBKEY_HASH as int]@];
            let hash = sha256_of(sign_preimage(str_bytes(source_url), str_bytes(server_name), timestamp, str_bytes(response_data)));
            &&& notary.raw_pubkey is Some
            &&& signature_outcome(str_bytes(notary.raw_pubkey->0), hash, str_bytes(notary_signature), notary_sig_v) is Ok
        }),
        groth16_outcome(s.vk(), decoded_proof(proof_a, proof_b, proof_c), decoded_signals(public_signals))
            == Ok::<bool, Groth16Error>(true),
    ensures
        submission_outcome(s, block_timestamp, source_url, server_name, timestamp, response_data, proof_a, proof_b, proof_c, public_signals, notary_signature, notary_sig_v)
            == Ok::<u64, OracleError>(s.attestation_log().len() as u64),
{
}

/// A copy of a list of ids.
fn copy_ids(v: &Vec<u64>) -> (r: Vec<u64>)
    ensures
        r@ == v@,
{
    let mut out: Vec<u64> = Vec::new();
    let mut i: usize = 0;
    while i < v.len()
        invariant
            0 <= i <= v@.len(),
            out@ == v@.subrange(0, i as int),
        decreases v@.len() - i,
    {
        out.push(v[i]);
        i = i + 1;
        assert(out@ =~= v@.subrange(0, i as int));
    }
    assert(v@.subrange(0, v@.len() as int) =~= v@);
    out
}

/// Whether every byte is a hex digit.
fn all_hex(b: &[u8]) -> (r: bool)
    ensures
        r == is_hex(b@),
{
    let mut i: usize = 0;
    while i < b.len()
        invariant
            0 <= i <= b@.len(),
            forall|k: int| 0 <= k < i ==> (#[trigger] crate::signature::hex_digit_value(b@[k])) is Some,
        decreases b@.len() - i,
    {
        let c = b[i];
        if !((c >= 48 && c <= 57) || (c >= 97 && c <= 102) || (c >= 65 && c <= 70)) {
            assert(crate::signature::hex_digit_value(b@[i as int]) is None);
            return false;
        }
        i = i + 1;
    }
    true
}

/// A copy of an optional string.
fn clone_opt_string(s: &Option<String>) -> (r: Option<String>)
    ensures
        r == *s,
{
    match s {
        Some(v) => Some(v.clone()),
        None => None,
    }
}

} // verus!
