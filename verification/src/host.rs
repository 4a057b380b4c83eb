//! The cryptographic primitives of the Soroban host.
//!
//! Nothing in this module is verified: each function hands its arguments to
//! the host and states what the host is trusted to return.

use soroban_sdk::testutils::EnvTestConfig;
use soroban_sdk::xdr::ToXdr;
use soroban_sdk::{Bytes, BytesN, Env, TryFromVal};
use vstd::prelude::*;

verus! {

/// The SHA-256 digest of `data`, as the host computes it.
pub uninterp spec fn sha256_digest(data: Seq<u8>) -> Seq<u8>;

/// The uncompressed SEC-1 encoding of the secp256k1 public key that the host
/// recovers from a 32-byte digest, a 64-byte signature and a recovery id, or
/// `None` where the host refuses the input or finds no key.
pub uninterp spec fn secp256k1_recovered_key(
    digest: Seq<u8>,
    signature: Seq<u8>,
    recovery_id: u32,
) -> Option<Seq<u8>>;

/// The four bytes of `value`, most significant first.
pub open spec fn be_bytes(value: u32) -> Seq<u8> {
    seq![
        (value / 0x100_0000) as u8,
        (value / 0x1_0000 % 0x100) as u8,
        (value / 0x100 % 0x100) as u8,
        (value % 0x100) as u8,
    ]
}

/// The XDR form of a 32-bit unsigned value: the type tag 3 and the value, each
/// as four bytes, most significant first.
pub open spec fn xdr_u32(value: u32) -> Seq<u8> {
    seq![0u8, 0u8, 0u8, 3u8] + be_bytes(value)
}

/// The bytes of an optional key.
pub open spec fn key_bytes(key: Option<[u8; 65]>) -> Option<Seq<u8>> {
    match key {
        Some(k) => Some(k@),
        None => None,
    }
}

/// Calls `soroban_sdk::crypto::Crypto::sha256` on a host without a budget
/// limit. Trusted: the result is the host's SHA-256 digest of `data`, a
/// function of `data` alone. The host holds byte strings of at most
/// `u32::MAX` bytes.
#[verifier::external_body]
pub(crate) fn sha256(data: &[u8]) -> (digest: [u8; 32])
    requires
        data@.len() <= u32::MAX,
    ensures
        digest@ == sha256_digest(data@),
{
    let env = Env::new_with_config(EnvTestConfig { capture_snapshot_at_drop: false });
    env.cost_estimate().budget().reset_unlimited();
    env.crypto().sha256(&Bytes::from_slice(&env, data)).to_array()
}

/// Calls `soroban_sdk::xdr::ToXdr::to_xdr` on a `u32`. Trusted: the result is
/// the XDR form of the value as a `ScVal`, eight bytes: the tag of the `U32`
/// case, which is 3, and the value, both big-endian.
#[verifier::external_body]
pub(crate) fn u32_to_xdr(value: u32) -> (bytes: Vec<u8>)
    ensures
        bytes@ == xdr_u32(value),
{
    let env = Env::new_with_config(EnvTestConfig { capture_snapshot_at_drop: false });
    value.to_xdr(&env).iter().collect()
}

/// Calls `recover_key_ecdsa_secp256k1` of `soroban_env_host::Env`, the host
/// function behind `soroban_sdk::crypto::Crypto::secp256k1_recover`, and
/// turns the host's error into `None`. Trusted: the outcome is a function of
/// the three arguments alone, and the host refuses a recovery id above 3.
#[verifier::external_body]
pub(crate) fn secp256k1_recover(digest: &[u8; 32], signature: &[u8; 64], recovery_id: u32) -> (key:
    Option<[u8; 65]>)
    ensures
        key_bytes(key) == secp256k1_recovered_key(digest@, signature@, recovery_id),
        recovery_id > 3 ==> key is None,
{
    let env = Env::new_with_config(EnvTestConfig { capture_snapshot_at_drop: false });
    let digest = BytesN::from_array(&env, digest).to_object();
    let signature = BytesN::from_array(&env, signature).to_object();
    let recovered = soroban_env_host::Env::recover_key_ecdsa_secp256k1(
        env.host(),
        digest,
        signature,
        recovery_id.into(),
    );
    match recovered {
        Ok(key) => BytesN::<65>::try_from_val(&env, &key).ok().map(|k| k.to_array()),
        Err(_) => None,
    }
}

} // verus!
