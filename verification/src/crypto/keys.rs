//! Password-based key and nonce derivation.

use vstd::prelude::*;
use vstd::string::StringSliceAdditionalSpecFns;
use crate::bytes::push_all;
use crate::crypto::primitives::{KdfError, argon2id_key, argon2id_hash, blake3_digest, blake3_hash};
use crate::error::CryptoError;

verus! {

/// Argon2id memory cost in KiB.
pub const ARGON2_MEMORY_KIB: u32 = 65536;
/// Argon2id iterations.
pub const ARGON2_ITERATIONS: u32 = 3;
/// Argon2id lanes.
pub const ARGON2_PARALLELISM: u32 = 4;

/// A long-term keypair; the private half is wiped by `zeroize`.
pub struct ZeroizableKeypair {
    pub public: Vec<u8>,
    pub private: Vec<u8>,
}

/// `zeroize::Zeroize::zeroize` on a byte vector: the bytes are overwritten, then the vector is cleared.
#[verifier::external_body]
pub(crate) fn zeroize_bytes(v: &mut Vec<u8>)
    ensures
        final(v)@.len() == 0,
{
    zeroize::Zeroize::zeroize(v)
}

impl ZeroizableKeypair {
    /// Wipes the private key; the public key is kept.
    pub fn zeroize(&mut self)
        ensures
            final(self).private@.len() == 0,
            final(self).public@ == old(self).public@,
    {
        zeroize_bytes(&mut self.private);
    }
}

/// The 32-byte key that Argon2id derives from a password and salt.
pub open spec fn password_key(password: Seq<u8>, salt: Seq<u8>) -> Seq<u8> {
    argon2id_key(ARGON2_MEMORY_KIB, ARGON2_ITERATIONS, ARGON2_PARALLELISM, password, salt)
}

/// Which inputs Argon2 refuses, and why.
pub open spec fn kdf_refusal(password_len: nat, salt_len: nat) -> Option<KdfError> {
    if password_len > 0xFFFF_FFFF {
        Some(KdfError::PasswordTooLong)
    } else if salt_len < 8 {
        Some(KdfError::SaltTooShort)
    } else if salt_len > 0xFFFF_FFFF {
        Some(KdfError::SaltTooLong)
    } else {
        None
    }
}

/// Argon2id over raw password bytes; the result or the refusal.
pub fn derive_key_bytes(password: &[u8], salt: &[u8]) -> (r: Result<Vec<u8>, KdfError>)
    ensures
        match kdf_refusal(password@.len(), salt@.len()) {
            None => r matches Ok(k) && k@ == password_key(password@, salt@) && k@.len() == 32,
            Some(e) => r == Err::<Vec<u8>, KdfError>(e),
        },
{
    argon2id_hash(ARGON2_MEMORY_KIB, ARGON2_ITERATIONS, ARGON2_PARALLELISM, password, salt)
}

/// Derives the 32-byte ChaCha20-Poly1305 key of a password (Argon2id, 64 MiB, 3 passes, 4 lanes).
pub fn derive_key(password: &str, salt: &[u8]) -> (r: Result<Vec<u8>, CryptoError>)
    ensures
        match kdf_refusal(password.spec_bytes().len(), salt@.len()) {
            None => r matches Ok(k) && k@ == password_key(password.spec_bytes(), salt@) && k@.len() == 32,
            Some(e) => r == Err::<Vec<u8>, CryptoError>(CryptoError::KeyDerivationFailed(e)),
        },
{
    match derive_key_bytes(password.as_bytes(), salt) {
        Ok(k) => Ok(k),
        Err(e) => Err(CryptoError::KeyDerivationFailed(e)),
    }
}

/// The domain separator of nonce derivation.
pub open spec fn nonce_domain() -> Seq<u8> {
    seq![78u8, 79, 78, 67, 69, 95, 68, 79, 77, 65, 73, 78]
}

/// The 12-byte nonce of an identity slot: the first bytes of
/// BLAKE3(password ‖ "NONCE_DOMAIN" ‖ salt ‖ slot).
pub open spec fn slot_nonce(password: Seq<u8>, salt: Seq<u8>, slot_index: u8) -> Seq<u8> {
    blake3_digest(password + nonce_domain() + salt + seq![slot_index]).take(12)
}

/// The bytes "NONCE_DOMAIN".
fn nonce_domain_bytes() -> (r: Vec<u8>)
    ensures
        r@ == nonce_domain(),
{
    let r = vec![78u8, 79, 78, 67, 69, 95, 68, 79, 77, 65, 73, 78];
    assert(r@ =~= nonce_domain());
    r
}

/// Derives the nonce for identity slot `slot_index`.
pub fn derive_nonce(password: &str, salt: &[u8], slot_index: u8) -> (n: Vec<u8>)
    ensures
        n@ == slot_nonce(password.spec_bytes(), salt@, slot_index),
        n@.len() == 12,
{
    let mut input: Vec<u8> = Vec::new();
    push_all(&mut input, password.as_bytes());
    let domain = nonce_domain_bytes();
    push_all(&mut input, domain.as_slice());
    push_all(&mut input, salt);
    input.push(slot_index);
    assert(input@ =~= password.spec_bytes() + nonce_domain() + salt@ + seq![slot_index]);
    let h = blake3_hash(input.as_slice());
    let n = crate::bytes::copy_range(h.as_slice(), 0, 12);
    assert(n@ =~= h@.take(12));
    n
}

} // verus!
