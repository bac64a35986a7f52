use vstd::prelude::*;
use sodiumoxide::crypto::sign::ed25519;

verus! {

/// The Ed25519 detached signature of `msg` under `secret_key` (deterministic).
pub uninterp spec fn ed25519_signature(msg: Seq<u8>, secret_key: Seq<u8>) -> Seq<u8>;

/// Whether `sig` is a valid Ed25519 signature of `msg` under `public_key`.
pub uninterp spec fn ed25519_verifies(sig: Seq<u8>, msg: Seq<u8>, public_key: Seq<u8>) -> bool;

/// Whether `secret_key` and `public_key` form an Ed25519 key pair: every signature
/// made with `secret_key` has the fixed size, and `public_key` accepts it.
pub open spec fn is_key_pair(secret_key: Seq<u8>, public_key: Seq<u8>) -> bool {
    forall|m: Seq<u8>|
        #![trigger ed25519_signature(m, secret_key)]
        ed25519_signature(m, secret_key).len() == 64 && ed25519_verifies(
            ed25519_signature(m, secret_key),
            m,
            public_key,
        )
}

/// Relies on sodiumoxide's `ed25519::sign_detached`: the signature depends on the
/// message and the key alone.
#[verifier::external_body]
pub(crate) fn sign_detached(msg: &[u8], secret_key: &[u8; 64]) -> (r: [u8; 64])
    ensures
        r@ == ed25519_signature(msg@, secret_key@),
{
    ed25519::sign_detached(msg, &ed25519::SecretKey(*secret_key)).to_bytes()
}

/// Relies on sodiumoxide's `ed25519::verify_detached`, and on `Signature::from_bytes`,
/// whose refusal of the bytes means the signature is not valid.
#[verifier::external_body]
pub(crate) fn verify_detached(sig: &[u8; 64], msg: &[u8], public_key: &[u8; 32]) -> (r: bool)
    ensures
        r == ed25519_verifies(sig@, msg@, public_key@),
{
    match ed25519::Signature::from_bytes(&sig[..]) {
        Ok(s) => ed25519::verify_detached(&s, msg, &ed25519::PublicKey(*public_key)),
        Err(_) => false,
    }
}

} // verus!
