//! Ed25519 signatures.

use ed25519_compact::{PublicKey, Signature};
use vstd::prelude::*;

verus! {

/// The length of a public key in bytes.
pub const PUBLIC_KEY_LEN: usize = 32;

/// The length of a signature in bytes.
pub const SIGNATURE_LEN: usize = 64;

/// Whether `ed25519_compact` accepts `signature` as one of `message` under the public key `key`.
pub uninterp spec fn ed25519_accepts(key: Seq<u8>, message: Seq<u8>, signature: Seq<u8>) -> bool;

/// Calls `ed25519_compact::PublicKey::verify` on a key and a signature of the right lengths. The
/// answer depends on the key, the message and the signature alone; which answer that is, is the
/// crate's Ed25519 and is only given a name.
#[verifier::external_body]
pub(crate) fn ed25519_verify(key: &[u8], message: &[u8], signature: &[u8]) -> (r: bool)
    requires
        key@.len() == PUBLIC_KEY_LEN,
        signature@.len() == SIGNATURE_LEN,
    ensures
        r == ed25519_accepts(key@, message@, signature@),
{
    PublicKey::from_slice(key).unwrap().verify(
        message,
        &Signature::from_slice(signature).unwrap(),
    ).is_ok()
}

} // verus!
