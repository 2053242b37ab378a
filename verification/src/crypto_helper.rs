//! Signature verification: a message digest checked against a hex-encoded
//! public key and a hex-encoded DER signature under an elliptic-curve
//! scheme.  A pure function of its inputs, with no side effects.

use vstd::prelude::*;
use crate::text::spec_hex_decode;

verus! {

/// A malformed input to signature verification: the public key or the
/// signature could not be decoded.
#[derive(Clone, Copy, Debug, PartialEq, Eq, Structural)]
pub enum SignatureError {
    InvalidKey,
    InvalidSignature,
}

/// The SHA-256 digest of a character string's bytes.
pub uninterp spec fn sha256_of(s: Seq<char>) -> Seq<u8>;

/// Whether a byte string is a well-formed SEC1 public key encoding.
pub uninterp spec fn sec1_public_key_ok(key: Seq<u8>) -> bool;

/// Whether a byte string is a well-formed DER signature encoding.
pub uninterp spec fn der_signature_ok(sig: Seq<u8>) -> bool;

/// Whether the signature checks out against the key over the digest.
pub uninterp spec fn ecdsa_matches(digest: Seq<u8>, key: Seq<u8>, sig: Seq<u8>) -> bool;

/// Relies on sha2::Sha256::digest: the 32-byte SHA-256 digest of the
/// argument's bytes, a function of the characters alone.
#[verifier::external_body]
pub(crate) fn sha256_digest(s: &str) -> (r: Vec<u8>)
    ensures
        r@ == sha256_of(s@),
        r@.len() == 32,
{
    let d = <sha2::Sha256 as sha2::Digest>::digest(s.as_bytes());
    d.to_vec()
}

/// Relies on hex::decode: succeeds exactly on strings of even length whose
/// characters are hexadecimal digits in either case, each pair of digits
/// giving one byte, high digit first.
#[verifier::external_body]
fn hex_decode(s: &str) -> (r: Option<Vec<u8>>)
    ensures
        match r {
            Some(b) => spec_hex_decode(s@) == Some(b@),
            None => spec_hex_decode(s@) is None,
        },
{
    match hex::decode(s) {
        Ok(b) => Some(b),
        Err(_) => None,
    }
}

/// Relies on secp256k1::PublicKey::from_slice: whether the bytes are a
/// well-formed SEC1 public key encoding.
#[verifier::external_body]
fn public_key_parses(b: &Vec<u8>) -> (r: bool)
    ensures
        r == sec1_public_key_ok(b@),
{
    secp256k1::PublicKey::from_slice(b).is_ok()
}

/// Relies on secp256k1: `PublicKey::from_slice` parses the SEC1 key,
/// `ecdsa::Signature::from_der` parses the DER signature, and
/// `ecdsa::verify` checks the signature over the 32-byte digest; the
/// outcome is a function of the three byte strings alone.
#[verifier::external_body]
fn ecdsa_check(digest: &Vec<u8>, public_key: &Vec<u8>, signature: &Vec<u8>) -> (r: Result<
    bool,
    SignatureError,
>)
    requires
        digest@.len() == 32,
    ensures
        match r {
            Ok(b) => sec1_public_key_ok(public_key@) && der_signature_ok(signature@) && b
                == ecdsa_matches(digest@, public_key@, signature@),
            Err(SignatureError::InvalidKey) => !sec1_public_key_ok(public_key@),
            Err(SignatureError::InvalidSignature) => sec1_public_key_ok(public_key@)
                && !der_signature_ok(signature@),
        },
{
    let pk = match secp256k1::PublicKey::from_slice(public_key) {
        Ok(k) => k,
        Err(_) => return Err(SignatureError::InvalidKey),
    };
    let sig = match secp256k1::ecdsa::Signature::from_der(signature) {
        Ok(s) => s,
        Err(_) => return Err(SignatureError::InvalidSignature),
    };
    let mut d = [0u8; 32];
    d.copy_from_slice(digest);
    let msg = secp256k1::Message::from_digest(d);
    Ok(secp256k1::ecdsa::verify(&sig, msg, &pk).is_ok())
}

/// What `verify_signature` returns: the public key is decoded and parsed
/// first, then the signature; a verification verdict comes back only when
/// both are well formed.
pub open spec fn spec_verify_signature(
    message: Seq<char>,
    public_key: Seq<char>,
    signature: Seq<char>,
) -> Result<bool, SignatureError> {
    match spec_hex_decode(public_key) {
        None => Err(SignatureError::InvalidKey),
        Some(kb) => if !sec1_public_key_ok(kb) {
            Err(SignatureError::InvalidKey)
        } else {
            match spec_hex_decode(signature) {
                None => Err(SignatureError::InvalidSignature),
                Some(sb) => if !der_signature_ok(sb) {
                    Err(SignatureError::InvalidSignature)
                } else {
                    Ok(ecdsa_matches(sha256_of(message), kb, sb))
                },
            }
        },
    }
}

/// Verifies `signature` (hex-encoded DER) over `message`'s digest against
/// `public_key` (hex-encoded SEC1).
pub fn verify_signature(message: &str, public_key: &str, signature: &str) -> (r: Result<
    bool,
    SignatureError,
>)
    ensures
        r == spec_verify_signature(message@, public_key@, signature@),
{
    let digest = sha256_digest(message);
    let key_bytes = match hex_decode(public_key) {
        Some(b) => b,
        None => return Err(SignatureError::InvalidKey),
    };
    if !public_key_parses(&key_bytes) {
        return Err(SignatureError::InvalidKey);
    }
    let sig_bytes = match hex_decode(signature) {
        Some(b) => b,
        None => return Err(SignatureError::InvalidSignature),
    };
    ecdsa_check(&digest, &key_bytes, &sig_bytes)
}

impl SignatureError {
    /// A short description, for the error envelope.
    pub fn describe(&self) -> (r: &'static str)
        ensures
            self == SignatureError::InvalidKey ==> r@ == "malformed public key"@,
            self == SignatureError::InvalidSignature ==> r@ == "malformed signature"@,
    {
        match self {
            SignatureError::InvalidKey => "malformed public key",
            SignatureError::InvalidSignature => "malformed signature",
        }
    }
}

} // verus!
