//! The Kyber-1024 exchange that upgrades a Noise session to post-quantum.
//!
//! The hub makes a keypair and sends the public key; the client encapsulates
//! a shared secret to it and sends the ciphertext back; the hub decapsulates.

use vstd::prelude::*;
use pqcrypto_traits::kem::{PublicKey, SecretKey, Ciphertext, SharedSecret};
use crate::error::CryptoError;

verus! {

pub const KYBER_PUBLIC_KEY_BYTES: usize = 1568;
pub const KYBER_SECRET_KEY_BYTES: usize = 3168;
pub const KYBER_CIPHERTEXT_BYTES: usize = 1568;
pub const KYBER_SHARED_SECRET_BYTES: usize = 32;

/// The shared secret that Kyber-1024 decapsulation derives from a ciphertext and secret key.
pub uninterp spec fn kyber_shared(ciphertext: Seq<u8>, secret_key: Seq<u8>) -> Seq<u8>;

/// `kyber1024::keypair`: a fresh (public, secret) keypair.
#[verifier::external_body]
pub(crate) fn kyber_keypair() -> (kp: (Vec<u8>, Vec<u8>))
    ensures
        kp.0@.len() == KYBER_PUBLIC_KEY_BYTES,
        kp.1@.len() == KYBER_SECRET_KEY_BYTES,
{
    let (pk, sk) = pqcrypto_kyber::kyber1024::keypair();
    (pk.as_bytes().to_vec(), sk.as_bytes().to_vec())
}

/// `kyber1024::encapsulate`: a fresh (shared secret, ciphertext) for a public key.
#[verifier::external_body]
fn kyber_encapsulate(public_key: &[u8]) -> (r: (Vec<u8>, Vec<u8>))
    requires
        public_key@.len() == KYBER_PUBLIC_KEY_BYTES,
    ensures
        r.0@.len() == KYBER_SHARED_SECRET_BYTES,
        r.1@.len() == KYBER_CIPHERTEXT_BYTES,
{
    let pk = pqcrypto_kyber::kyber1024::PublicKey::from_bytes(public_key).unwrap();
    let (ss, ct) = pqcrypto_kyber::kyber1024::encapsulate(&pk);
    (ss.as_bytes().to_vec(), ct.as_bytes().to_vec())
}

/// `kyber1024::decapsulate`.
#[verifier::external_body]
fn kyber_decapsulate(ciphertext: &[u8], secret_key: &[u8]) -> (ss: Vec<u8>)
    requires
        ciphertext@.len() == KYBER_CIPHERTEXT_BYTES,
        secret_key@.len() == KYBER_SECRET_KEY_BYTES,
    ensures
        ss@ == kyber_shared(ciphertext@, secret_key@),
        ss@.len() == KYBER_SHARED_SECRET_BYTES,
{
    let ct = pqcrypto_kyber::kyber1024::Ciphertext::from_bytes(ciphertext).unwrap();
    let sk = pqcrypto_kyber::kyber1024::SecretKey::from_bytes(secret_key).unwrap();
    pqcrypto_kyber::kyber1024::decapsulate(&ct, &sk).as_bytes().to_vec()
}

/// The hub's offer: a fresh Kyber-1024 (public, secret) keypair, whose
/// public key the hub sends to the client.
pub fn pq_offer() -> (kp: (Vec<u8>, Vec<u8>))
    ensures
        kp.0@.len() == KYBER_PUBLIC_KEY_BYTES,
        kp.1@.len() == KYBER_SECRET_KEY_BYTES,
{
    kyber_keypair()
}

/// The client's answer to the hub's public key: a shared secret and the ciphertext to send.
pub fn pq_respond(public_key: &[u8]) -> (r: Result<(Vec<u8>, Vec<u8>), CryptoError>)
    ensures
        public_key@.len() != KYBER_PUBLIC_KEY_BYTES ==> r == Err::<(Vec<u8>, Vec<u8>), CryptoError>(CryptoError::PqExchangeFailed),
        public_key@.len() == KYBER_PUBLIC_KEY_BYTES ==> (r matches Ok((ss, ct))
            && ss@.len() == KYBER_SHARED_SECRET_BYTES && ct@.len() == KYBER_CIPHERTEXT_BYTES),
{
    if public_key.len() != KYBER_PUBLIC_KEY_BYTES {
        return Err(CryptoError::PqExchangeFailed);
    }
    Ok(kyber_encapsulate(public_key))
}

/// The hub's shared secret from the client's ciphertext.
pub fn pq_accept(ciphertext: &[u8], secret_key: &[u8]) -> (r: Result<Vec<u8>, CryptoError>)
    requires
        secret_key@.len() == KYBER_SECRET_KEY_BYTES,
    ensures
        ciphertext@.len() != KYBER_CIPHERTEXT_BYTES ==> r == Err::<Vec<u8>, CryptoError>(CryptoError::PqExchangeFailed),
        ciphertext@.len() == KYBER_CIPHERTEXT_BYTES ==> (r matches Ok(ss) && ss@ == kyber_shared(ciphertext@, secret_key@)),
{
    if ciphertext.len() != KYBER_CIPHERTEXT_BYTES {
        return Err(CryptoError::PqExchangeFailed);
    }
    Ok(kyber_decapsulate(ciphertext, secret_key))
}

} // verus!
