//! The cryptographic building blocks that the library takes from outside crates.
//!
//! Each function here makes one call into `blake3`, `chacha20poly1305`,
//! `argon2`, `x25519-dalek`, `rand`, `base64`, `bs58` or `hex`.  Their
//! results are named by uninterpreted spec functions; the short facts stated
//! beside them are the ones the crates document (lengths, AEAD correctness).

use vstd::prelude::*;
use vstd::string::StringSliceAdditionalSpecFns;
use chacha20poly1305::aead::{Aead, KeyInit};
use base64::Engine;
use rand::RngCore;

verus! {

/// BLAKE3 digest of a byte string (32 bytes).
pub uninterp spec fn blake3_digest(input: Seq<u8>) -> Seq<u8>;

/// BLAKE3 keyed digest (32 bytes) under a 32-byte key.
pub uninterp spec fn blake3_keyed_digest(key: Seq<u8>, input: Seq<u8>) -> Seq<u8>;

/// ChaCha20-Poly1305 ciphertext (with its 16-byte tag) of `plaintext`.
pub uninterp spec fn chacha_seal(key: Seq<u8>, nonce: Seq<u8>, plaintext: Seq<u8>) -> Seq<u8>;

/// ChaCha20-Poly1305 decryption: `None` when the tag does not verify.
pub uninterp spec fn chacha_open(key: Seq<u8>, nonce: Seq<u8>, ciphertext: Seq<u8>) -> Option<Seq<u8>>;

/// XChaCha20-Poly1305 ciphertext (with its 16-byte tag) of `plaintext`.
pub uninterp spec fn xchacha_seal(key: Seq<u8>, nonce: Seq<u8>, plaintext: Seq<u8>) -> Seq<u8>;

/// XChaCha20-Poly1305 decryption: `None` when the tag does not verify.
pub uninterp spec fn xchacha_open(key: Seq<u8>, nonce: Seq<u8>, ciphertext: Seq<u8>) -> Option<Seq<u8>>;

/// Argon2id (version 0x13) output of 32 bytes for the given costs.
pub uninterp spec fn argon2id_key(m_cost: u32, t_cost: u32, p_cost: u32, password: Seq<u8>, salt: Seq<u8>) -> Seq<u8>;

/// The X25519 public key of a 32-byte secret.
pub uninterp spec fn x25519_public_key(secret: Seq<u8>) -> Seq<u8>;

/// Standard (padded) Base64 text of a byte string.
pub uninterp spec fn base64_standard(bytes: Seq<u8>) -> Seq<char>;

/// Base58 (Bitcoin alphabet) text of a byte string.
pub uninterp spec fn base58_text(bytes: Seq<u8>) -> Seq<char>;

/// Largest message that one ChaCha20-Poly1305 call accepts: fewer than `u32::MAX` blocks of 64 bytes.
pub open spec fn aead_accepts(len: nat) -> bool {
    len / 64 < u32::MAX as nat
}

/// `blake3::hash`.
#[verifier::external_body]
pub(crate) fn blake3_hash(input: &[u8]) -> (h: Vec<u8>)
    ensures
        h@ == blake3_digest(input@),
        h@.len() == 32,
{
    blake3::hash(input).as_bytes().to_vec()
}

/// `blake3::keyed_hash`.
#[verifier::external_body]
pub(crate) fn blake3_keyed_hash(key: &[u8], input: &[u8]) -> (h: Vec<u8>)
    requires
        key@.len() == 32,
    ensures
        h@ == blake3_keyed_digest(key@, input@),
        h@.len() == 32,
{
    let k: &[u8; 32] = key.try_into().unwrap();
    blake3::keyed_hash(k, input).as_bytes().to_vec()
}

/// `ChaCha20Poly1305::encrypt`: succeeds when the message is not too long for the cipher.
#[verifier::external_body]
pub(crate) fn chacha20poly1305_encrypt(key: &[u8], nonce: &[u8], plaintext: &[u8]) -> (c: Option<Vec<u8>>)
    requires
        key@.len() == 32,
        nonce@.len() == 12,
    ensures
        c is Some <==> aead_accepts(plaintext@.len()),
        c matches Some(c) ==> c@ == chacha_seal(key@, nonce@, plaintext@)
            && c@.len() == plaintext@.len() + 16
            && chacha_open(key@, nonce@, c@) == Some(plaintext@),
{
    let cipher = chacha20poly1305::ChaCha20Poly1305::new(chacha20poly1305::Key::from_slice(key));
    cipher.encrypt(chacha20poly1305::Nonce::from_slice(nonce), plaintext).ok()
}

/// `ChaCha20Poly1305::decrypt`.
#[verifier::external_body]
pub(crate) fn chacha20poly1305_decrypt(key: &[u8], nonce: &[u8], ciphertext: &[u8]) -> (p: Option<Vec<u8>>)
    requires
        key@.len() == 32,
        nonce@.len() == 12,
    ensures
        match p {
            Some(p) => chacha_open(key@, nonce@, ciphertext@) == Some(p@),
            None => chacha_open(key@, nonce@, ciphertext@) is None,
        },
        p matches Some(p) ==> ciphertext@.len() == p@.len() + 16,
{
    let cipher = chacha20poly1305::ChaCha20Poly1305::new(chacha20poly1305::Key::from_slice(key));
    cipher.decrypt(chacha20poly1305::Nonce::from_slice(nonce), ciphertext).ok()
}

/// `XChaCha20Poly1305::encrypt`: succeeds when the message is not too long for the cipher.
#[verifier::external_body]
pub(crate) fn xchacha20poly1305_encrypt(key: &[u8], nonce: &[u8], plaintext: &[u8]) -> (c: Option<Vec<u8>>)
    requires
        key@.len() == 32,
        nonce@.len() == 24,
    ensures
        c is Some <==> aead_accepts(plaintext@.len()),
        c matches Some(c) ==> c@ == xchacha_seal(key@, nonce@, plaintext@)
            && c@.len() == plaintext@.len() + 16
            && xchacha_open(key@, nonce@, c@) == Some(plaintext@),
{
    let cipher = chacha20poly1305::XChaCha20Poly1305::new(chacha20poly1305::Key::from_slice(key));
    cipher.encrypt(chacha20poly1305::XNonce::from_slice(nonce), plaintext).ok()
}

/// `XChaCha20Poly1305::decrypt`.
#[verifier::external_body]
pub(crate) fn xchacha20poly1305_decrypt(key: &[u8], nonce: &[u8], ciphertext: &[u8]) -> (p: Option<Vec<u8>>)
    requires
        key@.len() == 32,
        nonce@.len() == 24,
    ensures
        match p {
            Some(p) => xchacha_open(key@, nonce@, ciphertext@) == Some(p@),
            None => xchacha_open(key@, nonce@, ciphertext@) is None,
        },
        p matches Some(p) ==> ciphertext@.len() == p@.len() + 16,
{
    let cipher = chacha20poly1305::XChaCha20Poly1305::new(chacha20poly1305::Key::from_slice(key));
    cipher.decrypt(chacha20poly1305::XNonce::from_slice(nonce), ciphertext).ok()
}

/// Why Argon2 refused its inputs.
#[derive(Debug, Clone, Copy, PartialEq, Eq)]
pub enum KdfError {
    PasswordTooLong,
    SaltTooShort,
    SaltTooLong,
}

/// `Argon2::hash_password_into` with Argon2id, version 0x13 and a 32-byte output.
#[verifier::external_body]
pub(crate) fn argon2id_hash(m_cost: u32, t_cost: u32, p_cost: u32, password: &[u8], salt: &[u8]) -> (r: Result<Vec<u8>, KdfError>)
    requires
        8 <= m_cost,
        p_cost as int * 8 <= m_cost,
        1 <= t_cost,
        1 <= p_cost <= 0xFF_FFFF,
    ensures
        password@.len() > 0xFFFF_FFFF ==> r matches Err(KdfError::PasswordTooLong),
        password@.len() <= 0xFFFF_FFFF && salt@.len() < 8 ==> r matches Err(KdfError::SaltTooShort),
        password@.len() <= 0xFFFF_FFFF && salt@.len() > 0xFFFF_FFFF ==> r matches Err(KdfError::SaltTooLong),
        password@.len() <= 0xFFFF_FFFF && 8 <= salt@.len() <= 0xFFFF_FFFF ==> r is Ok,
        r matches Ok(k) ==> k@ == argon2id_key(m_cost, t_cost, p_cost, password@, salt@) && k@.len() == 32,
{
    let params = argon2::Params::new(m_cost, t_cost, p_cost, Some(32)).unwrap();
    let argon = argon2::Argon2::new(argon2::Algorithm::Argon2id, argon2::Version::V0x13, params);
    let mut out = [0u8; 32];
    match argon.hash_password_into(password, salt, &mut out) {
        Ok(()) => Ok(out.to_vec()),
        Err(argon2::Error::PwdTooLong) => Err(KdfError::PasswordTooLong),
        Err(argon2::Error::SaltTooShort) => Err(KdfError::SaltTooShort),
        Err(_) => Err(KdfError::SaltTooLong),
    }
}

/// `PublicKey::from(&StaticSecret::from(secret))`.
#[verifier::external_body]
pub(crate) fn x25519_public(secret: &[u8]) -> (p: Vec<u8>)
    requires
        secret@.len() == 32,
    ensures
        p@ == x25519_public_key(secret@),
        p@.len() == 32,
{
    let arr: [u8; 32] = secret.try_into().unwrap();
    let sk = x25519_dalek::StaticSecret::from(arr);
    x25519_dalek::PublicKey::from(&sk).as_bytes().to_vec()
}

/// `OsRng::fill_bytes` on a fresh buffer of `n` bytes.
#[verifier::external_body]
pub(crate) fn random_bytes(n: usize) -> (r: Vec<u8>)
    ensures
        r@.len() == n,
{
    let mut buf = vec![0u8; n];
    rand::rngs::OsRng.fill_bytes(&mut buf);
    buf
}

/// `BASE64_STANDARD.encode`.
#[verifier::external_body]
pub(crate) fn base64_encode(bytes: &[u8]) -> (s: String)
    ensures
        s@ == base64_standard(bytes@),
        s@.len() == 4 * ((bytes@.len() + 2) / 3),
{
    base64::engine::general_purpose::STANDARD.encode(bytes)
}

/// `bs58::encode(..).into_string()`.
#[verifier::external_body]
pub(crate) fn base58_encode(bytes: &[u8]) -> (s: String)
    ensures
        s@ == base58_text(bytes@),
{
    bs58::encode(bytes).into_string()
}

/// Lowercase hexadecimal digit of a value below 16.
pub open spec fn hex_digit(v: u8) -> char {
    if v < 10 { (('0' as u8) + v) as char } else { (('a' as u8) + v - 10) as char }
}

/// What `hex::encode` returns: two lowercase digits per byte.
pub open spec fn hex_lower(bytes: Seq<u8>) -> Seq<char>
    decreases bytes.len(),
{
    if bytes.len() == 0 {
        Seq::empty()
    } else {
        hex_lower(bytes.drop_last()) + seq![hex_digit(bytes.last() / 16), hex_digit(bytes.last() % 16)]
    }
}

/// The value of one hexadecimal digit, either case.
pub open spec fn hex_value(b: u8) -> Option<u8> {
    if '0' as u8 <= b <= '9' as u8 {
        Some((b - '0' as u8) as u8)
    } else if 'a' as u8 <= b <= 'f' as u8 {
        Some((b - 'a' as u8 + 10) as u8)
    } else if 'A' as u8 <= b <= 'F' as u8 {
        Some((b - 'A' as u8 + 10) as u8)
    } else {
        None
    }
}

/// Why a hexadecimal string was refused.
#[derive(Debug, Clone, Copy, PartialEq, Eq)]
pub enum HexError {
    OddLength,
    InvalidCharacter,
}

/// What `hex::decode` returns on the UTF-8 bytes of a string.
pub open spec fn hex_decode_spec(s: Seq<u8>) -> Result<Seq<u8>, HexError> {
    if s.len() % 2 != 0 {
        Err(HexError::OddLength)
    } else if exists|i: int| 0 <= i < s.len() && hex_value(#[trigger] s[i]) is None {
        Err(HexError::InvalidCharacter)
    } else {
        Ok(Seq::new(s.len() / 2, |i: int| (hex_value(s[2 * i])->0 * 16 + hex_value(s[2 * i + 1])->0) as u8))
    }
}

/// `hex::encode`.
#[verifier::external_body]
pub(crate) fn hex_encode(bytes: &[u8]) -> (s: String)
    ensures
        s@ == hex_lower(bytes@),
{
    hex::encode(bytes)
}

/// `hex::decode`.
#[verifier::external_body]
pub(crate) fn hex_decode(s: &str) -> (r: Result<Vec<u8>, HexError>)
    ensures
        match (r, hex_decode_spec(s.spec_bytes())) {
            (Ok(v), Ok(w)) => v@ == w,
            (Err(e), Err(f)) => e == f,
            _ => false,
        },
{
    match hex::decode(s) {
        Ok(v) => Ok(v),
        Err(hex::FromHexError::OddLength) => Err(HexError::OddLength),
        Err(_) => Err(HexError::InvalidCharacter),
    }
}

} // verus!
