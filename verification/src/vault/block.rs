//! Fixed-size encrypted blocks: `nonce (24) ‖ XChaCha20-Poly1305(payload padded to 4056) (4072)`.

use vstd::prelude::*;
use crate::bytes::{push_all, copy_range, pad_zeros, zeros};
use crate::crypto::primitives::{xchacha_open, xchacha_seal, random_bytes,
    xchacha20poly1305_encrypt, xchacha20poly1305_decrypt};
use crate::error::VaultError;

verus! {

pub const BLOCK_SIZE: usize = 4096;
pub const NONCE_SIZE: usize = 24;
pub const TAG_SIZE: usize = 16;
pub const PAYLOAD_SIZE: usize = 4056;
pub const HEADER_SALT_SIZE: usize = 32;

/// A payload padded with zeros to the full block payload.
pub open spec fn padded_payload(data: Seq<u8>) -> Seq<u8> {
    data + zeros((PAYLOAD_SIZE - data.len()) as nat)
}

/// What `open_block` returns for a block.
pub open spec fn open_block_spec(key: Seq<u8>, block: Seq<u8>) -> Result<Seq<u8>, VaultError> {
    if block.len() != BLOCK_SIZE {
        Err(VaultError::CorruptedVault)
    } else {
        match xchacha_open(key, block.take(NONCE_SIZE as int), block.skip(NONCE_SIZE as int)) {
            Some(p) => Ok(p),
            None => Err(VaultError::DecryptionFailed),
        }
    }
}

/// Pads `data` to a block payload and seals it under a fresh random nonce.
pub fn prepare_block(key: &[u8], data: &[u8]) -> (r: Result<Vec<u8>, VaultError>)
    requires
        key@.len() == 32,
    ensures
        data@.len() > PAYLOAD_SIZE ==> r == Err::<Vec<u8>, VaultError>(VaultError::BlockOverflow(data@.len() as usize, PAYLOAD_SIZE)),
        data@.len() <= PAYLOAD_SIZE ==> (r matches Ok(b) && {
            &&& b@.len() == BLOCK_SIZE
            &&& b@.skip(NONCE_SIZE as int) == xchacha_seal(key@, b@.take(NONCE_SIZE as int), padded_payload(data@))
            &&& open_block_spec(key@, b@) == Ok::<Seq<u8>, VaultError>(padded_payload(data@))
        }),
{
    if data.len() > PAYLOAD_SIZE {
        return Err(VaultError::BlockOverflow(data.len(), PAYLOAD_SIZE));
    }
    let mut padded: Vec<u8> = Vec::new();
    push_all(&mut padded, data);
    pad_zeros(&mut padded, PAYLOAD_SIZE);
    let nonce = random_bytes(NONCE_SIZE);
    let ciphertext = match xchacha20poly1305_encrypt(key, nonce.as_slice(), padded.as_slice()) {
        Some(c) => c,
        None => { return Err(VaultError::DecryptionFailed); },
    };
    let mut block: Vec<u8> = Vec::new();
    push_all(&mut block, nonce.as_slice());
    push_all(&mut block, ciphertext.as_slice());
    assert(block@.take(NONCE_SIZE as int) =~= nonce@);
    assert(block@.skip(NONCE_SIZE as int) =~= ciphertext@);
    Ok(block)
}

/// Authenticates and decrypts a block; the result is its full padded payload.
pub fn open_block(key: &[u8], block: &[u8]) -> (r: Result<Vec<u8>, VaultError>)
    requires
        key@.len() == 32,
    ensures
        match (r, open_block_spec(key@, block@)) {
            (Ok(p), Ok(q)) => p@ == q,
            (Err(e), Err(f)) => e == f,
            _ => false,
        },
{
    if block.len() != BLOCK_SIZE {
        return Err(VaultError::CorruptedVault);
    }
    let nonce = copy_range(block, 0, NONCE_SIZE);
    let ciphertext = copy_range(block, NONCE_SIZE, BLOCK_SIZE);
    assert(nonce@ =~= block@.take(NONCE_SIZE as int));
    assert(ciphertext@ =~= block@.skip(NONCE_SIZE as int));
    match xchacha20poly1305_decrypt(key, nonce.as_slice(), ciphertext.as_slice()) {
        Some(p) => Ok(p),
        None => Err(VaultError::DecryptionFailed),
    }
}

} // verus!
