//! Long-term identities and the dual-slot identity file.
//!
//! The file is `salt (32) ‖ slot 1 (1024) ‖ slot 2 (1024)`.  Each slot is a
//! record padded with zeros to 1008 bytes and sealed with ChaCha20-Poly1305
//! under the Argon2id key of its password; slot 1 uses nonce index 0, slot 2
//! index 1.  The real password opens slot 1, the duress password slot 2.

use vstd::prelude::*;
use vstd::string::StringSliceAdditionalSpecFns;
use crate::bytes::{push_all, copy_range, pad_zeros, zeros};
use crate::crypto::keys::{ZeroizableKeypair, derive_key, derive_nonce, password_key, slot_nonce, kdf_refusal};
use crate::crypto::primitives::{blake3_digest, blake3_hash, base64_standard, chacha_seal, base64_encode, base58_text,
    base58_encode, chacha_open, chacha20poly1305_encrypt, chacha20poly1305_decrypt, x25519_public_key,
    hex_lower, hex_encode, hex_decode, hex_decode_spec, random_bytes, HexError};
use crate::error::CryptoError;
use crate::text::{chars_of, string_of};

verus! {

pub const SALT_LEN: usize = 32;
pub const SLOT_SIZE: usize = 1024;
pub const ID_FILE_SIZE: usize = 2080;
/// Largest record that fits a slot.
pub const SLOT_RECORD_SIZE: usize = 1008;

/// "Noise_XX_25519_ChaChaPoly_BLAKE2b"
pub open spec fn noise_protocol_name() -> Seq<char> {
    seq!['N', 'o', 'i', 's', 'e', '_', 'X', 'X', '_', '2', '5', '5', '1', '9', '_', 'C', 'h', 'a', 'C',
        'h', 'a', 'P', 'o', 'l', 'y', '_', 'B', 'L', 'A', 'K', 'E', '2', 'b']
}

/// The Noise protocol that identities are made for.
pub fn noise_pattern() -> (s: &'static str)
    ensures
        s@ == noise_protocol_name(),
{
    proof { reveal_strlit("Noise_XX_25519_ChaChaPoly_BLAKE2b"); }
    "Noise_XX_25519_ChaChaPoly_BLAKE2b"
}

/// `snow::Builder::new(pattern).generate_keypair()`: a fresh X25519 keypair, as
/// (public, private). With the default resolver this succeeds for the
/// protocol of `noise_protocol_name` (its random number generator and its
/// Curve25519 implementation always resolve); the keys are random.
#[verifier::external_body]
fn noise_generate_keypair(pattern: &str) -> (r: Option<(Vec<u8>, Vec<u8>)>)
    ensures
        pattern@ == noise_protocol_name() ==> r is Some,
        r matches Some(kp) ==> kp.0@.len() == 32 && kp.1@.len() == 32 && kp.0@ == x25519_public_key(kp.1@),
{
    let params: snow::params::NoiseParams = pattern.parse().ok()?;
    let kp = snow::Builder::new(params).generate_keypair().ok()?;
    Some((kp.public, kp.private))
}

/// A keypair and the profile it belongs to.
pub struct Identity {
    pub keypair: ZeroizableKeypair,
    pub profile_type: String,
}

/// The fingerprint of a public key: Base64 of its BLAKE3 hash.
pub open spec fn fingerprint_of(public: Seq<u8>) -> Seq<char> {
    base64_standard(blake3_digest(public))
}

/// "did:key:z"
pub open spec fn did_prefix() -> Seq<char> {
    seq!['d', 'i', 'd', ':', 'k', 'e', 'y', ':', 'z']
}

/// The DID of a public key: `did:key:z` and the Base58 of the multicodec-prefixed key.
pub open spec fn did_of(public: Seq<u8>) -> Seq<char> {
    did_prefix() + base58_text(seq![0xecu8, 0x01] + public)
}

/// Zeros at the end of a byte string removed.
pub open spec fn strip_trailing_zeros(s: Seq<u8>) -> Seq<u8>
    decreases s.len(),
{
    if s.len() > 0 && s.last() == 0 {
        strip_trailing_zeros(s.drop_last())
    } else {
        s
    }
}

/// A record padded to the size of a slot.
pub open spec fn slot_padded(record: Seq<u8>) -> Seq<u8> {
    record + zeros((SLOT_RECORD_SIZE - record.len()) as nat)
}

/// The bytes of an identity file: the salt, then each record padded to 1008
/// bytes and sealed under its password's key, the real one with nonce index
/// 0, the duress one with nonce index 1.
pub open spec fn identity_image(pass_ops: Seq<u8>, pass_casual: Seq<u8>, salt: Seq<u8>, ops_record: Seq<u8>,
    casual_record: Seq<u8>) -> Seq<u8> {
    salt + chacha_seal(password_key(pass_ops, salt), slot_nonce(pass_ops, salt, 0), slot_padded(ops_record))
        + chacha_seal(password_key(pass_casual, salt), slot_nonce(pass_casual, salt, 1), slot_padded(casual_record))
}

/// Ciphertext of slot `index` (0 or 1) of an identity file.
pub open spec fn slot_bytes(data: Seq<u8>, index: int) -> Seq<u8> {
    data.subrange(SALT_LEN + index * SLOT_SIZE, SALT_LEN + (index + 1) * SLOT_SIZE)
}

/// What slot `index` of an identity file holds for `password`: its record
/// without the padding, or `None` when it does not authenticate.
pub open spec fn slot_record(data: Seq<u8>, password: Seq<u8>, index: int) -> Option<Seq<u8>> {
    let salt = data.take(SALT_LEN as int);
    match chacha_open(password_key(password, salt), slot_nonce(password, salt, index as u8), slot_bytes(data, index)) {
        Some(p) => Some(strip_trailing_zeros(p)),
        None => None,
    }
}

/// Padding then stripping gives a record back when it does not end in a zero byte.
pub proof fn lemma_strip_padding(record: Seq<u8>, extra: nat)
    requires
        record.len() == 0 || record.last() != 0,
    ensures
        strip_trailing_zeros(record + zeros(extra)) == record,
    decreases extra,
{
    if extra == 0 {
        assert(record + zeros(0) =~= record);
        if record.len() > 0 {
        } else {
            assert(strip_trailing_zeros(record) == record);
        }
    } else {
        assert((record + zeros(extra)).drop_last() =~= record + zeros((extra - 1) as nat));
        lemma_strip_padding(record, (extra - 1) as nat);
    }
}

/// `strip_trailing_zeros` in code.
fn strip_zeros(v: Vec<u8>) -> (r: Vec<u8>)
    ensures
        r@ == strip_trailing_zeros(v@),
{
    let ghost orig = v@;
    let mut v = v;
    while v.len() > 0 && v[v.len() - 1] == 0
        invariant
            strip_trailing_zeros(v@) == strip_trailing_zeros(orig),
        decreases v@.len(),
    {
        let ghost before = v@;
        v.pop();
        assert(v@ =~= before.drop_last());
    }
    v
}

/// The fingerprint of a public key (also used to check a peer's static key).
pub fn key_fingerprint(public: &[u8]) -> (s: String)
    ensures
        s@ == fingerprint_of(public@),
        s@.len() == 44,
{
    let h = blake3_hash(public);
    base64_encode(h.as_slice())
}

impl Identity {
    /// A fresh identity for a profile.
    pub fn generate(profile_type: &str) -> (r: Result<Identity, CryptoError>)
        ensures
            r is Ok,
            r matches Ok(id) ==> id.profile_type@ == profile_type@
                && id.keypair.public@.len() == 32 && id.keypair.private@.len() == 32
                && id.keypair.public@ == x25519_public_key(id.keypair.private@),
            r matches Err(e) ==> e == CryptoError::KeyGenerationFailed,
    {
        match noise_generate_keypair(noise_pattern()) {
            Some((public, private)) => {
                let chars = chars_of(profile_type);
                Ok(Identity {
                    keypair: ZeroizableKeypair { public, private },
                    profile_type: string_of(chars.as_slice()),
                })
            },
            None => Err(CryptoError::KeyGenerationFailed),
        }
    }

    /// Base64 of the BLAKE3 hash of the public key.
    pub fn fingerprint(&self) -> (s: String)
        ensures
            s@ == fingerprint_of(self.keypair.public@),
            s@.len() == 44,
    {
        key_fingerprint(self.keypair.public.as_slice())
    }

    /// `did:key:z` followed by the Base58 of `0xec 0x01 ‖ public key`.
    pub fn did(&self) -> (s: String)
        ensures
            s@ == did_of(self.keypair.public@),
            s@.take(9) == did_prefix(),
    {
        let mut bytes: Vec<u8> = vec![0xec, 0x01];
        push_all(&mut bytes, self.keypair.public.as_slice());
        assert(bytes@ =~= seq![0xecu8, 0x01] + self.keypair.public@);
        let multibase = base58_encode(bytes.as_slice());
        let prefix = ['d', 'i', 'd', ':', 'k', 'e', 'y', ':', 'z'];
        let mut out: Vec<char> = Vec::new();
        let mut i: usize = 0;
        while i < 9
            invariant
                i <= 9,
                prefix@ == did_prefix(),
                out@ =~= did_prefix().take(i as int),
            decreases 9 - i,
        {
            out.push(prefix[i]);
            i = i + 1;
        }
        assert(prefix@ =~= did_prefix());
        let tail = chars_of(multibase.as_str());
        let mut j: usize = 0;
        while j < tail.len()
            invariant
                j <= tail@.len(),
                out@ =~= did_prefix() + tail@.take(j as int),
            decreases tail@.len() - j,
        {
            out.push(tail[j]);
            j = j + 1;
        }
        assert(tail@.take(tail@.len() as int) =~= tail@);
        let s = string_of(out.as_slice());
        assert(s@.take(9) =~= did_prefix());
        s
    }

    /// The stored form of an identity: hex public key, hex private key, profile.
    pub fn stored_fields(&self) -> (r: (String, String, String))
        ensures
            r.0@ == hex_lower(self.keypair.public@),
            r.1@ == hex_lower(self.keypair.private@),
            r.2@ == self.profile_type@,
    {
        (hex_encode(self.keypair.public.as_slice()), hex_encode(self.keypair.private.as_slice()), self.profile_type.clone())
    }

    /// Whether `r` is the identity that a stored form (hex public key, hex
    /// private key, profile) decodes to, or the error that its decoding gives.
    pub open spec fn decodes_to(public_hex: Seq<u8>, private_hex: Seq<u8>, metadata: Seq<char>,
        r: Result<Identity, CryptoError>) -> bool {
        match (hex_decode_spec(public_hex), hex_decode_spec(private_hex)) {
            (Ok(p), Ok(s)) => r matches Ok(id) && id.keypair.public@ == p && id.keypair.private@ == s
                && id.profile_type@ == metadata,
            (Err(e), _) => r == Err::<Identity, CryptoError>(CryptoError::InvalidKeyEncoding(e)),
            (Ok(_), Err(e)) => r == Err::<Identity, CryptoError>(CryptoError::InvalidKeyEncoding(e)),
        }
    }

    /// An identity from its stored form.
    pub fn from_stored(public_hex: &str, private_hex: &str, metadata: String) -> (r: Result<Identity, CryptoError>)
        ensures
            Self::decodes_to(public_hex.spec_bytes(), private_hex.spec_bytes(), metadata@, r),
    {
        let public = match hex_decode(public_hex) {
            Ok(p) => p,
            Err(e) => { return Err(CryptoError::InvalidKeyEncoding(e)); },
        };
        let private = match hex_decode(private_hex) {
            Ok(p) => p,
            Err(e) => { return Err(CryptoError::InvalidKeyEncoding(e)); },
        };
        Ok(Identity { keypair: ZeroizableKeypair { public, private }, profile_type: metadata })
    }

    /// Pads a record and seals it for one slot.
    pub fn seal_slot(key: &[u8], nonce: &[u8], record: &[u8]) -> (r: Result<Vec<u8>, CryptoError>)
        requires
            key@.len() == 32,
            nonce@.len() == 12,
        ensures
            record@.len() > SLOT_RECORD_SIZE ==> r == Err::<Vec<u8>, CryptoError>(CryptoError::IdentitySlotOverflow),
            record@.len() <= SLOT_RECORD_SIZE ==> (r matches Ok(c) && c@.len() == SLOT_SIZE
                && c@ == chacha_seal(key@, nonce@, slot_padded(record@))
                && chacha_open(key@, nonce@, c@) == Some(slot_padded(record@))),
    {
        if record.len() > SLOT_RECORD_SIZE {
            return Err(CryptoError::IdentitySlotOverflow);
        }
        let mut padded: Vec<u8> = Vec::new();
        push_all(&mut padded, record);
        pad_zeros(&mut padded, SLOT_RECORD_SIZE);
        assert(padded@ =~= slot_padded(record@));
        match chacha20poly1305_encrypt(key, nonce, padded.as_slice()) {
            Some(c) => Ok(c),
            None => { assert(false); Err(CryptoError::IdentitySlotOverflow) },
        }
    }

    /// Two fresh identities ("ops" and "casual") and a fresh salt for a dual-slot file.
    pub fn generate_dual() -> (r: Result<(Identity, Identity, Vec<u8>), CryptoError>)
        ensures
            r matches Ok((ops, casual, salt)) && ops.profile_type@ == seq!['o', 'p', 's']
                && casual.profile_type@ == seq!['c', 'a', 's', 'u', 'a', 'l'] && salt@.len() == SALT_LEN
                && ops.keypair.public@.len() == 32 && ops.keypair.private@.len() == 32
                && ops.keypair.public@ == x25519_public_key(ops.keypair.private@)
                && casual.keypair.public@.len() == 32 && casual.keypair.private@.len() == 32
                && casual.keypair.public@ == x25519_public_key(casual.keypair.private@),
    {
        proof { reveal_strlit("ops"); reveal_strlit("casual"); }
        let ops = Self::generate("ops")?;
        let casual = Self::generate("casual")?;
        let salt = random_bytes(SALT_LEN);
        Ok((ops, casual, salt))
    }

    /// The bytes of a dual-slot identity file, from the two slot keys.
    pub fn dual_file_image_with_keys(key_ops: &[u8], key_casual: &[u8], pass_ops: &str, pass_casual: &str,
        salt: &[u8], ops_record: &[u8], casual_record: &[u8]) -> (r: Result<Vec<u8>, CryptoError>)
        requires
            salt@.len() == SALT_LEN,
            key_ops@ == password_key(pass_ops.spec_bytes(), salt@),
            key_casual@ == password_key(pass_casual.spec_bytes(), salt@),
            key_ops@.len() == 32,
            key_casual@.len() == 32,
        ensures
            if ops_record@.len() > SLOT_RECORD_SIZE || casual_record@.len() > SLOT_RECORD_SIZE {
                r == Err::<Vec<u8>, CryptoError>(CryptoError::IdentitySlotOverflow)
            } else {
                r matches Ok(image) && image@.len() == ID_FILE_SIZE && image@.take(SALT_LEN as int) == salt@
                    && image@ == identity_image(pass_ops.spec_bytes(), pass_casual.spec_bytes(), salt@, ops_record@,
                        casual_record@)
                    && slot_record(image@, pass_ops.spec_bytes(), 0) == Some(strip_trailing_zeros(slot_padded(ops_record@)))
                    && slot_record(image@, pass_casual.spec_bytes(), 1) == Some(strip_trailing_zeros(slot_padded(casual_record@)))
            },
    {
        let nonce_ops = derive_nonce(pass_ops, salt, 0);
        let c_ops = Self::seal_slot(key_ops, nonce_ops.as_slice(), ops_record)?;
        let nonce_casual = derive_nonce(pass_casual, salt, 1);
        let c_casual = Self::seal_slot(key_casual, nonce_casual.as_slice(), casual_record)?;
        let mut image: Vec<u8> = Vec::new();
        push_all(&mut image, salt);
        push_all(&mut image, c_ops.as_slice());
        push_all(&mut image, c_casual.as_slice());
        assert(image@.take(SALT_LEN as int) =~= salt@);
        assert(slot_bytes(image@, 0) =~= c_ops@);
        assert(slot_bytes(image@, 1) =~= c_casual@);
        assert(image@ =~= identity_image(pass_ops.spec_bytes(), pass_casual.spec_bytes(), salt@, ops_record@,
            casual_record@));
        Ok(image)
    }

    /// The bytes of a dual-slot identity file holding two records.
    pub fn dual_file_image(pass_ops: &str, pass_casual: &str, salt: &[u8], ops_record: &[u8], casual_record: &[u8])
        -> (r: Result<Vec<u8>, CryptoError>)
        requires
            salt@.len() == SALT_LEN,
        ensures
            match (kdf_refusal(pass_ops.spec_bytes().len(), 32), kdf_refusal(pass_casual.spec_bytes().len(), 32)) {
                (Some(e), _) => r == Err::<Vec<u8>, CryptoError>(CryptoError::KeyDerivationFailed(e)),
                (None, Some(e)) => r == Err::<Vec<u8>, CryptoError>(CryptoError::KeyDerivationFailed(e)),
                (None, None) => if ops_record@.len() > SLOT_RECORD_SIZE || casual_record@.len() > SLOT_RECORD_SIZE {
                    r == Err::<Vec<u8>, CryptoError>(CryptoError::IdentitySlotOverflow)
                } else {
                    r matches Ok(image) && image@.len() == ID_FILE_SIZE && image@.take(SALT_LEN as int) == salt@
                        && image@ == identity_image(pass_ops.spec_bytes(), pass_casual.spec_bytes(), salt@, ops_record@,
                            casual_record@)
                        && slot_record(image@, pass_ops.spec_bytes(), 0) == Some(strip_trailing_zeros(slot_padded(ops_record@)))
                        && slot_record(image@, pass_casual.spec_bytes(), 1) == Some(strip_trailing_zeros(slot_padded(casual_record@)))
                },
            },
    {
        let key_ops = derive_key(pass_ops, salt)?;
        let key_casual = derive_key(pass_casual, salt)?;
        Self::dual_file_image_with_keys(key_ops.as_slice(), key_casual.as_slice(), pass_ops, pass_casual, salt,
            ops_record, casual_record)
    }

    /// The key that opens the slots of an identity file for a password.
    pub fn slot_key(data: &[u8], password: &str) -> (r: Result<Vec<u8>, CryptoError>)
        ensures
            data@.len() < ID_FILE_SIZE ==> r == Err::<Vec<u8>, CryptoError>(CryptoError::IdentityFileTooShort),
            data@.len() >= ID_FILE_SIZE ==> match kdf_refusal(password.spec_bytes().len(), 32) {
                Some(e) => r == Err::<Vec<u8>, CryptoError>(CryptoError::KeyDerivationFailed(e)),
                None => r matches Ok(k) && k@ == password_key(password.spec_bytes(), data@.take(SALT_LEN as int))
                    && k@.len() == 32,
            },
    {
        if data.len() < ID_FILE_SIZE {
            return Err(CryptoError::IdentityFileTooShort);
        }
        let salt = copy_range(data, 0, SALT_LEN);
        assert(salt@ =~= data@.take(SALT_LEN as int));
        derive_key(password, salt.as_slice())
    }

    /// Opens both slots of an identity file with the key of `password`; each
    /// is the record it holds for that password, or `None`.
    pub fn open_slots_with_key(data: &[u8], key: &[u8], password: &str) -> (r: (Option<Vec<u8>>, Option<Vec<u8>>))
        requires
            data@.len() >= ID_FILE_SIZE,
            key@ == password_key(password.spec_bytes(), data@.take(SALT_LEN as int)),
            key@.len() == 32,
        ensures
            match r.0 { Some(a) => slot_record(data@, password.spec_bytes(), 0) == Some(a@),
                None => slot_record(data@, password.spec_bytes(), 0) is None },
            match r.1 { Some(b) => slot_record(data@, password.spec_bytes(), 1) == Some(b@),
                None => slot_record(data@, password.spec_bytes(), 1) is None },
    {
        let salt = copy_range(data, 0, SALT_LEN);
        let slot1 = copy_range(data, SALT_LEN, SALT_LEN + SLOT_SIZE);
        let slot2 = copy_range(data, SALT_LEN + SLOT_SIZE, ID_FILE_SIZE);
        assert(salt@ =~= data@.take(SALT_LEN as int));
        assert(slot1@ =~= slot_bytes(data@, 0));
        assert(slot2@ =~= slot_bytes(data@, 1));
        let nonce1 = derive_nonce(password, salt.as_slice(), 0);
        let nonce2 = derive_nonce(password, salt.as_slice(), 1);
        let a = match chacha20poly1305_decrypt(key, nonce1.as_slice(), slot1.as_slice()) {
            Some(p) => Some(strip_zeros(p)),
            None => None,
        };
        let b = match chacha20poly1305_decrypt(key, nonce2.as_slice(), slot2.as_slice()) {
            Some(p) => Some(strip_zeros(p)),
            None => None,
        };
        (a, b)
    }

    /// The identity a password unlocks, from the stored forms read out of the
    /// two slots (`None` where a slot did not open or did not hold a stored
    /// form). The real ("ops") slot is tried first: when it holds a stored
    /// form, that form decides the result, and the duress slot is not looked
    /// at; `None` when neither slot holds one.
    pub fn from_slots(ops: Option<(String, String, String)>, casual: Option<(String, String, String)>)
        -> (r: Option<Result<Identity, CryptoError>>)
        ensures
            match (ops, casual) {
                (Some(f), _) => r matches Some(id) && Self::decodes_to(vstd::utf8::encode_utf8(f.0@), vstd::utf8::encode_utf8(f.1@), f.2@, id),
                (None, Some(f)) => r matches Some(id) && Self::decodes_to(vstd::utf8::encode_utf8(f.0@), vstd::utf8::encode_utf8(f.1@), f.2@, id),
                (None, None) => r is None,
            },
    {
        let chosen = match ops {
            Some(f) => f,
            None => match casual {
                Some(f) => f,
                None => { return None; },
            },
        };
        let (public_hex, private_hex, metadata) = chosen;
        Some(Self::from_stored(public_hex.as_str(), private_hex.as_str(), metadata))
    }

    /// Opens both slots of an identity file with a password.
    pub fn open_slots(data: &[u8], password: &str) -> (r: Result<(Option<Vec<u8>>, Option<Vec<u8>>), CryptoError>)
        ensures
            data@.len() < ID_FILE_SIZE ==> r == Err::<(Option<Vec<u8>>, Option<Vec<u8>>), CryptoError>(CryptoError::IdentityFileTooShort),
            data@.len() >= ID_FILE_SIZE ==> match kdf_refusal(password.spec_bytes().len(), 32) {
                Some(e) => r == Err::<(Option<Vec<u8>>, Option<Vec<u8>>), CryptoError>(CryptoError::KeyDerivationFailed(e)),
                None => r matches Ok((a, b))
                    && (match a { Some(a) => slot_record(data@, password.spec_bytes(), 0) == Some(a@),
                        None => slot_record(data@, password.spec_bytes(), 0) is None })
                    && (match b { Some(b) => slot_record(data@, password.spec_bytes(), 1) == Some(b@),
                        None => slot_record(data@, password.spec_bytes(), 1) is None }),
            },
    {
        let key = Self::slot_key(data, password)?;
        Ok(Self::open_slots_with_key(data, key.as_slice(), password))
    }
}

} // verus!
