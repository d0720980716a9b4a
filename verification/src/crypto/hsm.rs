//! Hardware security module abstraction with a software implementation.

use vstd::prelude::*;
use crate::bytes::{push_all, copy_range};
use crate::crypto::keys::ZeroizableKeypair;
use crate::crypto::primitives::{blake3_digest, blake3_keyed_digest, chacha_open, blake3_hash,
    blake3_keyed_hash, chacha20poly1305_decrypt};

verus! {

/// Why an HSM operation failed.
#[derive(Debug, Clone, Copy, PartialEq, Eq)]
pub enum HsmError {
    /// No keypair has been loaded.
    NoKeypair,
    /// The private key is shorter than the 32-byte signing key.
    KeyTooShort,
    /// The ciphertext is shorter than its 12-byte nonce.
    CiphertextTooShort,
    /// The ciphertext did not authenticate under the derived key.
    DecryptionFailed,
}

/// A provider of key operations whose private key may live in hardware.
pub trait HsmProvider {
    /// The public key.
    fn get_public_key(&self) -> Result<Vec<u8>, HsmError>;

    /// A signature (keyed MAC) of `data`.
    fn sign(&self, data: &[u8]) -> Result<Vec<u8>, HsmError>;

    /// Decrypts a nonce-prefixed ciphertext.
    fn decrypt(&self, ciphertext: &[u8]) -> Result<Vec<u8>, HsmError>;

    /// Whether key material is present.
    fn is_available(&self) -> bool;
}

/// An HSM emulated in memory.
pub struct SoftwareHsm {
    keypair: Option<ZeroizableKeypair>,
}

/// The domain separator "ISOTOPE_HSM_DECRYPT".
pub open spec fn hsm_decrypt_domain() -> Seq<u8> {
    seq![73u8, 83, 79, 84, 79, 80, 69, 95, 72, 83, 77, 95, 68, 69, 67, 82, 89, 80, 84]
}

/// The ChaCha20-Poly1305 key that decrypts for a private key.
pub open spec fn hsm_decrypt_key(private: Seq<u8>) -> Seq<u8> {
    blake3_digest(hsm_decrypt_domain() + private)
}

/// What `SoftwareHsm::decrypt` returns once a private key is loaded.
pub open spec fn hsm_decrypt_spec(private: Seq<u8>, ciphertext: Seq<u8>) -> Result<Seq<u8>, HsmError> {
    if ciphertext.len() < 12 {
        Err(HsmError::CiphertextTooShort)
    } else {
        match chacha_open(hsm_decrypt_key(private), ciphertext.take(12), ciphertext.skip(12)) {
            Some(p) => Ok(p),
            None => Err(HsmError::DecryptionFailed),
        }
    }
}

impl SoftwareHsm {
    /// The loaded public key, if any.
    pub closed spec fn public_key(&self) -> Option<Seq<u8>> {
        match self.keypair {
            Some(kp) => Some(kp.public@),
            None => None,
        }
    }

    /// The loaded private key, if any.
    pub closed spec fn private_key(&self) -> Option<Seq<u8>> {
        match self.keypair {
            Some(kp) => Some(kp.private@),
            None => None,
        }
    }

    /// An HSM with no key.
    pub fn new() -> (h: Self)
        ensures
            h.public_key() is None,
            h.private_key() is None,
    {
        SoftwareHsm { keypair: None }
    }

    /// Loads (or replaces) the keypair.
    pub fn load_keypair(&mut self, keypair: ZeroizableKeypair)
        ensures
            final(self).public_key() == Some(keypair.public@),
            final(self).private_key() == Some(keypair.private@),
    {
        self.keypair = Some(keypair);
    }
}

impl Default for SoftwareHsm {
    fn default() -> (h: Self)
        ensures
            h.public_key() is None,
            h.private_key() is None,
    {
        Self::new()
    }
}

impl HsmProvider for SoftwareHsm {
    fn get_public_key(&self) -> (r: Result<Vec<u8>, HsmError>)
        ensures
            match self.public_key() {
                Some(p) => r matches Ok(k) && k@ == p,
                None => r == Err::<Vec<u8>, HsmError>(HsmError::NoKeypair),
            },
    {
        match &self.keypair {
            Some(kp) => Ok(kp.public.clone()),
            None => Err(HsmError::NoKeypair),
        }
    }

    /// Signing takes the first 32 bytes of the private key as a BLAKE3 key; a
    /// shorter key is refused.
    fn sign(&self, data: &[u8]) -> (r: Result<Vec<u8>, HsmError>)
        ensures
            match self.private_key() {
                Some(sk) => if sk.len() >= 32 {
                    r matches Ok(s) && s@ == blake3_keyed_digest(sk.take(32), data@) && s@.len() == 32
                } else {
                    r == Err::<Vec<u8>, HsmError>(HsmError::KeyTooShort)
                },
                None => r == Err::<Vec<u8>, HsmError>(HsmError::NoKeypair),
            },
    {
        match &self.keypair {
            Some(kp) => {
                if kp.private.len() < 32 {
                    return Err(HsmError::KeyTooShort);
                }
                let key = copy_range(kp.private.as_slice(), 0, 32);
                assert(key@ =~= kp.private@.take(32));
                Ok(blake3_keyed_hash(key.as_slice(), data))
            },
            None => Err(HsmError::NoKeypair),
        }
    }

    fn decrypt(&self, ciphertext: &[u8]) -> (r: Result<Vec<u8>, HsmError>)
        ensures
            match self.private_key() {
                Some(sk) => match (r, hsm_decrypt_spec(sk, ciphertext@)) {
                    (Ok(p), Ok(q)) => p@ == q,
                    (Err(e), Err(f)) => e == f,
                    _ => false,
                },
                None => r == Err::<Vec<u8>, HsmError>(HsmError::NoKeypair),
            },
    {
        match &self.keypair {
            Some(kp) => {
                let mut input: Vec<u8> = vec![73u8, 83, 79, 84, 79, 80, 69, 95, 72, 83, 77, 95, 68, 69, 67, 82, 89, 80, 84];
                assert(input@ =~= hsm_decrypt_domain());
                push_all(&mut input, kp.private.as_slice());
                let key = blake3_hash(input.as_slice());
                if ciphertext.len() < 12 {
                    return Err(HsmError::CiphertextTooShort);
                }
                let nonce = copy_range(ciphertext, 0, 12);
                let body = copy_range(ciphertext, 12, ciphertext.len());
                assert(nonce@ =~= ciphertext@.take(12));
                assert(body@ =~= ciphertext@.skip(12));
                match chacha20poly1305_decrypt(key.as_slice(), nonce.as_slice(), body.as_slice()) {
                    Some(p) => Ok(p),
                    None => Err(HsmError::DecryptionFailed),
                }
            },
            None => Err(HsmError::NoKeypair),
        }
    }

    fn is_available(&self) -> (b: bool)
        ensures
            b == self.private_key() is Some,
    {
        self.keypair.is_some()
    }
}

} // verus!
