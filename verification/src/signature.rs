//! The protocol by which a chip authorises a request.
//!
//! A request carries a message, a nonce, a 64-byte signature, a recovery id
//! and the chip's public key. The chip signs the SHA-256 digest of the message
//! followed by the XDR form of the nonce. A request is accepted when its nonce
//! is above the last one accepted for the key and the signature recovers to
//! the key.

use crate::bytes::bytes_equal;
use crate::counters::counter;
use crate::errors::NonFungibleTokenError;
use crate::host::{
    key_bytes, secp256k1_recover, secp256k1_recovered_key, sha256, sha256_digest, u32_to_xdr,
    xdr_u32,
};
use crate::nonce::NonceRegistry;
use vstd::prelude::*;

verus! {

/// The bytes that the chip signs: the message, then the nonce in XDR form.
pub open spec fn payload_of(message: Seq<u8>, nonce: u32) -> Seq<u8> {
    message + xdr_u32(nonce)
}

/// The digest that the chip signs.
pub open spec fn digest_of(message: Seq<u8>, nonce: u32) -> Seq<u8> {
    sha256_digest(payload_of(message, nonce))
}

/// The public key that a signed request recovers to, if any.
pub open spec fn signer_of(message: Seq<u8>, signature: Seq<u8>, recovery_id: u32, nonce: u32)
    -> Option<Seq<u8>> {
    secp256k1_recovered_key(digest_of(message, nonce), signature, recovery_id)
}

/// Whether the signature of a request recovers to `public_key`.
pub open spec fn signature_matches(
    message: Seq<u8>,
    signature: Seq<u8>,
    recovery_id: u32,
    public_key: Seq<u8>,
    nonce: u32,
) -> bool {
    signer_of(message, signature, recovery_id, nonce) == Some(public_key)
}

/// Whether a request is accepted given the last accepted nonces: its nonce is
/// fresh and its signature recovers to the presented key.
pub open spec fn accepts(
    nonces: Map<Seq<u8>, u32>,
    message: Seq<u8>,
    signature: Seq<u8>,
    recovery_id: u32,
    public_key: Seq<u8>,
    nonce: u32,
) -> bool {
    &&& nonce > counter(nonces, public_key)
    &&& signature_matches(message, signature, recovery_id, public_key, nonce)
}

/// The bytes that the chip signs for `message` and `nonce`.
pub fn signing_payload(message: &[u8], nonce: u32) -> (payload: Vec<u8>)
    ensures
        payload@ == payload_of(message@, nonce),
{
    let mut payload = vstd::slice::slice_to_vec(message);
    let encoded = u32_to_xdr(nonce);
    payload.extend_from_slice(encoded.as_slice());
    payload
}

/// The digest that the chip signs for `message` and `nonce`.
pub fn message_digest(message: &[u8], nonce: u32) -> (digest: [u8; 32])
    requires
        message@.len() + 8 <= u32::MAX,
    ensures
        digest@ == digest_of(message@, nonce),
{
    let payload = signing_payload(message, nonce);
    sha256(payload.as_slice())
}

/// The public key to which the signature of a request recovers, if any.
pub fn recover_signer(message: &[u8], signature: &[u8; 64], recovery_id: u32, nonce: u32) -> (key:
    Option<[u8; 65]>)
    requires
        message@.len() + 8 <= u32::MAX,
    ensures
        key_bytes(key) == signer_of(message@, signature@, recovery_id, nonce),
        recovery_id > 3 ==> key is None,
{
    let digest = message_digest(message, nonce);
    secp256k1_recover(&digest, signature, recovery_id)
}

/// Accepts a nonce that is above the last accepted one and no other.
pub fn check_nonce(last_accepted: u32, nonce: u32) -> (result: Result<(), NonFungibleTokenError>)
    ensures
        result == if nonce > last_accepted {
            Ok::<(), NonFungibleTokenError>(())
        } else {
            Err(NonFungibleTokenError::InvalidSignature)
        },
{
    if nonce > last_accepted {
        Ok(())
    } else {
        Err(NonFungibleTokenError::InvalidSignature)
    }
}

/// Accepts a recovered key that is the presented public key and refuses any
/// other outcome of the recovery.
pub fn check_signer(recovered: &Option<[u8; 65]>, public_key: &[u8; 65]) -> (result: Result<
    (),
    NonFungibleTokenError,
>)
    ensures
        result == if key_bytes(*recovered) == Some(public_key@) {
            Ok::<(), NonFungibleTokenError>(())
        } else {
            Err(NonFungibleTokenError::InvalidSignature)
        },
{
    match recovered {
        Some(key) => {
            if bytes_equal(key.as_slice(), public_key.as_slice()) {
                Ok(())
            } else {
                Err(NonFungibleTokenError::InvalidSignature)
            }
        },
        None => Err(NonFungibleTokenError::InvalidSignature),
    }
}

/// Decides whether a request is authorised by the chip with `public_key`.
///
/// The request is accepted when `nonce` is above the last nonce accepted for
/// the key and the signature over the digest of message and nonce recovers to
/// the key. Nothing is recorded: the caller advances the nonce once the
/// operation that the request authorises has succeeded.
pub fn verify_chip_signature(
    registry: &NonceRegistry,
    message: &[u8],
    signature: &[u8; 64],
    recovery_id: u32,
    public_key: &[u8; 65],
    nonce: u32,
) -> (result: Result<(), NonFungibleTokenError>)
    requires
        message@.len() + 8 <= u32::MAX,
    ensures
        result == if accepts(registry@, message@, signature@, recovery_id, public_key@, nonce) {
            Ok::<(), NonFungibleTokenError>(())
        } else {
            Err(NonFungibleTokenError::InvalidSignature)
        },
        nonce <= counter(registry@, public_key@) ==> result is Err,
        recovery_id > 3 ==> result is Err,
{
    let last_accepted = registry.get_nonce(public_key);
    match check_nonce(last_accepted, nonce) {
        Ok(()) => {},
        Err(e) => {
            return Err(e);
        },
    }
    let recovered = recover_signer(message, signature, recovery_id, nonce);
    check_signer(&recovered, public_key)
}

} // verus!
