use crate::auth::keys::{KeyCache, RsaKeyView, RsaPublicKey};
use crate::auth::token::{
    after_dot, first_dot, has_three_segments, header_segment, lemma_first_dot, payload_segment, DOT,
};
use crate::auth::{Denial, TokenHeader, User};
use openssl::bn::BigNum;
use openssl::error::ErrorStack;
use openssl::hash::MessageDigest;
use openssl::pkey::PKey;
use openssl::rsa::Rsa;
use openssl::sign::Verifier;
use vstd::prelude::*;
use vstd::slice::slice_to_vec;
use vstd::string::StringExecFns;

verus! {

/// Longest modulus or exponent, in bytes, that the cryptographic library
/// takes.
pub const MAX_KEY_BYTES: usize = 0x7fff_ffff;

/// What the cryptographic library answers when it is asked whether
/// `signature` is an RSA signature (PKCS #1 v1.5, SHA-256) of `message` under
/// the public key with this modulus and exponent: `Some` of its answer, or
/// `None` where it reports an error.
pub uninterp spec fn rsa_sha256_verdict(
    modulus: Seq<u8>,
    exponent: Seq<u8>,
    message: Seq<u8>,
    signature: Seq<u8>,
) -> Option<bool>;

/// The errors that the `openssl` crate reports. The library only tells them
/// from success.
#[verifier::external_type_specification]
#[verifier::external_body]
pub struct ExErrorStack(ErrorStack);

/// Asks the `openssl` crate for the check of one signature. The key is built
/// from its big-endian components with `BigNum::from_slice`,
/// `Rsa::from_public_components` and `PKey::from_rsa`; the check is
/// `Verifier::new` with `MessageDigest::sha256`, one `Verifier::update` with
/// the whole message and `Verifier::verify`. The contract names the outcome
/// for these four byte strings and claims nothing else of it. The bound on
/// the components is the one that `BigNum::from_slice` asserts.
#[verifier::external_body]
fn rsa_sha256_verify(modulus: &[u8], exponent: &[u8], message: &[u8], signature: &[u8]) -> (r:
    Result<bool, ErrorStack>)
    requires
        modulus@.len() <= MAX_KEY_BYTES,
        exponent@.len() <= MAX_KEY_BYTES,
    ensures
        r matches Ok(valid) ==> rsa_sha256_verdict(modulus@, exponent@, message@, signature@)
            == Some(valid),
        r is Err ==> rsa_sha256_verdict(modulus@, exponent@, message@, signature@) is None,
{
    let n = BigNum::from_slice(modulus)?;
    let e = BigNum::from_slice(exponent)?;
    let key = PKey::from_rsa(Rsa::from_public_components(n, e)?)?;
    let mut verifier = Verifier::new(MessageDigest::sha256(), &key)?;
    verifier.update(message)?;
    verifier.verify(signature)
}

/// What is signed: the raw header segment, a separator and the raw payload
/// segment.
pub open spec fn signing_input(header_64: Seq<u8>, payload_64: Seq<u8>) -> Seq<u8> {
    header_64.push(DOT) + payload_64
}

/// A signature counts as valid under a key only if the cryptographic library
/// can take the key and says that the signature is one of the message. An
/// error of the library counts as a signature that is not valid.
pub open spec fn signature_valid(key: RsaKeyView, message: Seq<u8>, signature: Seq<u8>) -> bool {
    &&& key.modulus.len() <= MAX_KEY_BYTES
    &&& key.exponent.len() <= MAX_KEY_BYTES
    &&& rsa_sha256_verdict(key.modulus, key.exponent, message, signature) == Some(true)
}

/// What is signed of a token is the token up to its second separator: the
/// two segments as they came, not what they decode to.
pub proof fn lemma_signing_input_is_prefix(token: Seq<u8>)
    requires
        has_three_segments(token),
    ensures
        first_dot(token) + 1 + first_dot(after_dot(token)) < token.len(),
        signing_input(header_segment(token), payload_segment(token)) == token.take(
            first_dot(token) + 1 + first_dot(after_dot(token)),
        ),
{
    lemma_first_dot(token);
    lemma_first_dot(after_dot(token));
    assert(signing_input(header_segment(token), payload_segment(token)) =~= token.take(
        first_dot(token) + 1 + first_dot(after_dot(token)),
    ));
}

fn build_signing_input(header_64: &[u8], payload_64: &[u8]) -> (message: Vec<u8>)
    ensures
        message@ == signing_input(header_64@, payload_64@),
{
    let mut message = slice_to_vec(header_64);
    message.push(DOT);
    message.extend_from_slice(payload_64);
    assert(message@ =~= signing_input(header_64@, payload_64@));
    message
}

/// Checks the signature of a token under one key.
pub fn check_signature(
    key: &RsaPublicKey,
    header_64: &[u8],
    payload_64: &[u8],
    signature: &[u8],
) -> (valid: bool)
    ensures
        valid == signature_valid(key@, signing_input(header_64@, payload_64@), signature@),
{
    if key.modulus.len() > MAX_KEY_BYTES || key.exponent.len() > MAX_KEY_BYTES {
        return false;
    }
    let message = build_signing_input(header_64, payload_64);
    match rsa_sha256_verify(
        key.modulus.as_slice(),
        key.exponent.as_slice(),
        message.as_slice(),
        signature,
    ) {
        Ok(valid) => valid,
        Err(_) => false,
    }
}

/// How the verification of a token ends with the keys that are cached.
#[derive(Debug, Clone, Copy, PartialEq, Eq, Structural)]
pub enum Verification {
    /// Not expired, signed with the supported algorithm, and the signature is
    /// one of the cached key that the header names.
    Verified,
    /// Refused, and why.
    Denied(Denial),
    /// Neither: the key that the header names is not cached. The key set has
    /// to be refreshed, once, before the token is verified again.
    KeyMissing,
}

/// The last two checks of a token: its key is cached, and its signature is
/// valid under that key.
pub open spec fn signature_verdict(
    header: TokenHeader,
    header_64: Seq<u8>,
    payload_64: Seq<u8>,
    signature: Seq<u8>,
    keys: Map<Seq<char>, RsaKeyView>,
) -> Verification {
    if !keys.contains_key(header.kid@) {
        Verification::KeyMissing
    } else if signature_valid(keys[header.kid@], signing_input(header_64, payload_64), signature) {
        Verification::Verified
    } else {
        Verification::Denied(Denial::BadSignature)
    }
}

/// The checks of a token, in order: it has not expired at `now` (seconds), it
/// is signed with RS256, its key is cached, and its signature is valid under
/// that key.
pub open spec fn token_verdict(
    header: TokenHeader,
    header_64: Seq<u8>,
    payload: User,
    payload_64: Seq<u8>,
    signature: Seq<u8>,
    now: int,
    keys: Map<Seq<char>, RsaKeyView>,
) -> Verification {
    if payload.exp <= now {
        Verification::Denied(Denial::Expired)
    } else if header.alg@ != "RS256"@ {
        Verification::Denied(Denial::UnsupportedAlgorithm)
    } else {
        signature_verdict(header, header_64, payload_64, signature, keys)
    }
}

/// Looks up the key that the header names and checks the signature under it.
pub fn verify_signature(
    header: &TokenHeader,
    header_64: &[u8],
    payload_64: &[u8],
    signature: &[u8],
    keys: &KeyCache,
) -> (r: Verification)
    ensures
        r == signature_verdict(*header, header_64@, payload_64@, signature@, keys@),
{
    match keys.lookup(header.kid.as_str()) {
        None => Verification::KeyMissing,
        Some(key) => if check_signature(key, header_64, payload_64, signature) {
            Verification::Verified
        } else {
            Verification::Denied(Denial::BadSignature)
        },
    }
}

/// Verifies a decoded token at the time `now`, in seconds since the epoch,
/// with the keys that are cached.
pub fn verify_token(
    header: &TokenHeader,
    header_64: &[u8],
    payload: &User,
    payload_64: &[u8],
    signature: &[u8],
    now: i64,
    keys: &KeyCache,
) -> (r: Verification)
    ensures
        r == token_verdict(
            *header,
            header_64@,
            *payload,
            payload_64@,
            signature@,
            now as int,
            keys@,
        ),
        payload.exp <= now ==> r == Verification::Denied(Denial::Expired),
        header.alg@ != "RS256"@ ==> r is Denied,
        r is Verified ==> keys@.contains_key(header.kid@) && signature_valid(
            keys@[header.kid@],
            signing_input(header_64@, payload_64@),
            signature@,
        ),
{
    if payload.exp as i64 <= now {
        return Verification::Denied(Denial::Expired);
    }
    if header.alg != String::from_str("RS256") {
        return Verification::Denied(Denial::UnsupportedAlgorithm);
    }
    verify_signature(header, header_64, payload_64, signature, keys)
}

} // verus!
