//! The notary signature check: the canonical message, its SHA-256 digest, and
//! recovery of the secp256k1 key that signed it.
use vstd::prelude::*;
use vstd::string::StringSliceAdditionalSpecFns;
use crate::bn254::append_bytes;
use crate::host::{ecrecover, secp256k1_recover_strict, sha256, sha256_of};

verus! {

/// The value of one hex digit, either case.
pub open spec fn hex_digit_value(c: u8) -> Option<u8> {
    if 48 <= c <= 57 {
        Some((c - 48) as u8)
    } else if 97 <= c <= 102 {
        Some((c - 87) as u8)
    } else if 65 <= c <= 70 {
        Some((c - 55) as u8)
    } else {
        None
    }
}

/// Every byte of `s` is a hex digit.
pub open spec fn is_hex(s: Seq<u8>) -> bool {
    forall|i: int| 0 <= i < s.len() ==> (#[trigger] hex_digit_value(s[i])) is Some
}

/// The bytes that pairs of hex digits spell, high digit first.
pub open spec fn hex_decoded(s: Seq<u8>) -> Seq<u8> {
    Seq::new(
        s.len() / 2,
        |i: int| (hex_digit_value(s[2 * i])->0 * 16 + hex_digit_value(s[2 * i + 1])->0) as u8,
    )
}

/// The 8 bytes of `n`, most significant first.
pub open spec fn be8(n: u64) -> Seq<u8> {
    seq![
        (n / 0x100_0000_0000_0000) as u8,
        ((n / 0x1_0000_0000_0000) % 256) as u8,
        ((n / 0x100_0000_0000) % 256) as u8,
        ((n / 0x1_0000_0000) % 256) as u8,
        ((n / 0x100_0000) % 256) as u8,
        ((n / 0x1_0000) % 256) as u8,
        ((n / 0x100) % 256) as u8,
        (n % 256) as u8,
    ]
}

/// The message a notary signs:
/// `source_url ‖ 0 ‖ server_name ‖ 0 ‖ timestamp (8 bytes, big-endian) ‖ 0 ‖ response_data`.
pub open spec fn sign_preimage(
    source_url: Seq<u8>,
    server_name: Seq<u8>,
    timestamp: u64,
    response_data: Seq<u8>,
) -> Seq<u8> {
    source_url + seq![0u8] + server_name + seq![0u8] + be8(timestamp) + seq![0u8] + response_data
}

/// How a signature check ends.
#[derive(Clone, Copy, Debug, PartialEq, Eq)]
pub enum SignatureError {
    /// The signature is not 128 hex digits, or the recovery id is not 0 or 1.
    Malformed,
    /// No key could be recovered from the signature.
    InvalidSignature,
    /// A key was recovered, but not the notary's.
    KeyMismatch,
}

/// What checking `sig_hex` and `v` against the notary key `raw_pubkey` (hex)
/// over `message_hash` comes to.
pub open spec fn signature_outcome(
    raw_pubkey: Seq<u8>,
    message_hash: Seq<u8>,
    sig_hex: Seq<u8>,
    v: u8,
) -> Result<(), SignatureError> {
    if sig_hex.len() != 128 || v > 1 || !is_hex(sig_hex) {
        Err(SignatureError::Malformed)
    } else {
        match secp256k1_recover_strict(message_hash, hex_decoded(sig_hex), v) {
            None => Err(SignatureError::InvalidSignature),
            Some(key) => if key == hex_decoded(raw_pubkey) {
                Ok(())
            } else {
                Err(SignatureError::KeyMismatch)
            },
        }
    }
}

/// The value of one hex digit, or `None`.
fn hex_digit(c: u8) -> (r: Option<u8>)
    ensures
        r == hex_digit_value(c),
{
    if c >= 48 && c <= 57 {
        Some(c - 48)
    } else if c >= 97 && c <= 102 {
        Some(c - 87)
    } else if c >= 65 && c <= 70 {
        Some(c - 55)
    } else {
        None
    }
}

/// Decodes a hex string; `None` where its length is odd or a byte is not a
/// hex digit.
pub fn hex_to_bytes(s: &str) -> (r: Option<Vec<u8>>)
    ensures
        r is Some <==> s.spec_bytes().len() % 2 == 0 && is_hex(s.spec_bytes()),
        r matches Some(v) ==> v@ == hex_decoded(s.spec_bytes()),
{
    let b = s.as_bytes();
    if b.len() % 2 != 0 {
        return None;
    }
    let mut out: Vec<u8> = Vec::new();
    let mut i: usize = 0;
    while i < b.len() / 2
        invariant
            b@ == s.spec_bytes(),
            b@.len() % 2 == 0,
            0 <= i <= b@.len() / 2,
            out@.len() == i,
            forall|k: int| 0 <= k < 2 * i ==> (#[trigger] hex_digit_value(b@[k])) is Some,
            forall|k: int| 0 <= k < i ==> out@[k] == hex_decoded(b@)[k],
        decreases b@.len() / 2 - i,
    {
        let hi = hex_digit(b[2 * i]);
        let lo = hex_digit(b[2 * i + 1]);
        match (hi, lo) {
            (Some(h), Some(l)) => {
                out.push(h * 16 + l);
            },
            _ => {
                proof {
                    if hi is None {
                        assert(hex_digit_value(b@[2 * i as int]) is None);
                    } else {
                        assert(hex_digit_value(b@[2 * i + 1]) is None);
                    }
                }
                return None;
            },
        }
        proof {
            assert forall|k: int| 0 <= k < 2 * (i + 1) implies (#[trigger] hex_digit_value(
                b@[k],
            )) is Some by {
                if k >= 2 * i {
                    assert(k == 2 * i || k == 2 * i + 1);
                }
            }
        }
        i = i + 1;
    }
    proof {
        assert(out@ =~= hex_decoded(b@));
    }
    Some(out)
}

/// The SHA-256 digest of the message a notary signs for these fields.
pub fn build_sign_message(
    source_url: &str,
    server_name: &str,
    timestamp: u64,
    response_data: &str,
) -> (r: Vec<u8>)
    ensures
        r@ == sha256_of(
            sign_preimage(
                source_url.spec_bytes(),
                server_name.spec_bytes(),
                timestamp,
                response_data.spec_bytes(),
            ),
        ),
        r@.len() == 32,
{
    let mut data: Vec<u8> = Vec::new();
    append_bytes(&mut data, source_url.as_bytes());
    data.push(0u8);
    append_bytes(&mut data, server_name.as_bytes());
    data.push(0u8);
    let ts: [u8; 8] = [
        (timestamp / 0x100_0000_0000_0000) as u8,
        ((timestamp / 0x1_0000_0000_0000) % 256) as u8,
        ((timestamp / 0x100_0000_0000) % 256) as u8,
        ((timestamp / 0x1_0000_0000) % 256) as u8,
        ((timestamp / 0x100_0000) % 256) as u8,
        ((timestamp / 0x1_0000) % 256) as u8,
        ((timestamp / 0x100) % 256) as u8,
        (timestamp % 256) as u8,
    ];
    append_bytes(&mut data, &ts);
    data.push(0u8);
    append_bytes(&mut data, response_data.as_bytes());
    proof {
        assert(ts@ =~= be8(timestamp));
        assert(data@ =~= sign_preimage(
            source_url.spec_bytes(),
            server_name.spec_bytes(),
            timestamp,
            response_data.spec_bytes(),
        ));
    }
    sha256(&data)
}

/// Checks a notary signature `sig_hex` (128 hex digits, `r ‖ s`) with recovery
/// id `v` over `message_hash` against the notary key `raw_pubkey`, 128 hex
/// digits of the uncompressed key `x ‖ y`.
pub fn verify_notary_signature(
    raw_pubkey: &str,
    message_hash: &Vec<u8>,
    sig_hex: &str,
    v: u8,
) -> (r: Result<(), SignatureError>)
    requires
        message_hash@.len() == 32,
        raw_pubkey.spec_bytes().len() == 128,
        is_hex(raw_pubkey.spec_bytes()),
    ensures
        r == signature_outcome(raw_pubkey.spec_bytes(), message_hash@, sig_hex.spec_bytes(), v),
{
    if sig_hex.as_bytes().len() != 128 || v > 1 {
        return Err(SignatureError::Malformed);
    }
    let sig = match hex_to_bytes(sig_hex) {
        Some(b) => b,
        None => {
            return Err(SignatureError::Malformed);
        },
    };
    assert(sig@.len() == 64);
    let recovered = match ecrecover(message_hash, &sig, v) {
        Some(k) => k,
        None => {
            return Err(SignatureError::InvalidSignature);
        },
    };
    let matches = match hex_to_bytes(raw_pubkey) {
        Some(expected) => bytes_equal(recovered.as_slice(), expected.as_slice()),
        None => false,
    };
    if matches {
        Ok(())
    } else {
        Err(SignatureError::KeyMismatch)
    }
}

/// Whether two byte strings are equal.
pub(crate) fn bytes_equal(a: &[u8], b: &[u8]) -> (r: bool)
    ensures
        r == (a@ == b@),
{
    if a.len() != b.len() {
        return false;
    }
    let mut i: usize = 0;
    while i < a.len()
        invariant
            a@.len() == b@.len(),
            0 <= i <= a@.len(),
            forall|k: int| 0 <= k < i ==> a@[k] == b@[k],
        decreases a@.len() - i,
    {
        if a[i] != b[i] {
            return false;
        }
        i = i + 1;
    }
    assert(a@ =~= b@);
    true
}

} // verus!
