use base64::Engine;
use chacha20poly1305::aead::{Aead, KeyInit};
use isotope::crypto::hsm::{HsmError, HsmProvider, SoftwareHsm};
use isotope::crypto::identity::{key_fingerprint, Identity, ID_FILE_SIZE, SLOT_RECORD_SIZE};
use isotope::crypto::keys::{derive_key, derive_nonce, ZeroizableKeypair};
use isotope::crypto::kem::{pq_offer, pq_accept, pq_respond, KYBER_CIPHERTEXT_BYTES};
use isotope::crypto::noise::NoiseSession;
use isotope::crypto::primitives::{HexError, KdfError};
use isotope::crypto::ring_sig::{ring_sign, ring_verify};
use isotope::error::CryptoError;
use isotope::{PLAINTEXT_SIZE, WIRE_PACKET_SIZE};

fn keypair(private: Vec<u8>) -> ZeroizableKeypair {
    ZeroizableKeypair { public: vec![7u8; 32], private }
}

#[test]
fn hsm_without_key_refuses() {
    let hsm = SoftwareHsm::new();
    assert!(!hsm.is_available());
    assert_eq!(hsm.get_public_key(), Err(HsmError::NoKeypair));
    assert_eq!(hsm.sign(b"x"), Err(HsmError::NoKeypair));
    assert_eq!(hsm.decrypt(&[0u8; 40]), Err(HsmError::NoKeypair));
    let d = SoftwareHsm::default();
    assert!(!d.is_available());
}

#[test]
fn hsm_signs_with_keyed_blake3() {
    let mut hsm = SoftwareHsm::new();
    hsm.load_keypair(keypair((0u8..40).collect()));
    assert!(hsm.is_available());
    assert_eq!(hsm.get_public_key().unwrap(), vec![7u8; 32]);
    let sig = hsm.sign(b"hello").unwrap();
    let key: [u8; 32] = (0u8..32).collect::<Vec<u8>>().try_into().unwrap();
    assert_eq!(sig, blake3::keyed_hash(&key, b"hello").as_bytes().to_vec());
    assert_ne!(sig, b"hello".to_vec());
}

#[test]
fn hsm_decrypts_what_its_key_sealed() {
    let private: Vec<u8> = vec![3u8; 32];
    let mut hsm = SoftwareHsm::new();
    hsm.load_keypair(keypair(private.clone()));
    let mut input = b"ISOTOPE_HSM_DECRYPT".to_vec();
    input.extend_from_slice(&private);
    let key = blake3::hash(&input);
    let cipher = chacha20poly1305::ChaCha20Poly1305::new(chacha20poly1305::Key::from_slice(key.as_bytes()));
    let nonce = [9u8; 12];
    let ct = cipher.encrypt(chacha20poly1305::Nonce::from_slice(&nonce), b"secret".as_ref()).unwrap();
    let mut msg = nonce.to_vec();
    msg.extend_from_slice(&ct);
    assert_eq!(hsm.decrypt(&msg).unwrap(), b"secret".to_vec());
    assert_eq!(hsm.decrypt(&[1u8; 11]), Err(HsmError::CiphertextTooShort));
    msg[20] ^= 1;
    assert_eq!(hsm.decrypt(&msg), Err(HsmError::DecryptionFailed));
}

#[test]
fn derive_key_refuses_short_salt() {
    assert_eq!(derive_key("pw", &[1u8; 7]), Err(CryptoError::KeyDerivationFailed(KdfError::SaltTooShort)));
}

#[test]
fn derive_nonce_is_prefix_of_blake3() {
    let n = derive_nonce("pw", &[5u8; 32], 1);
    let mut input = b"pw".to_vec();
    input.extend_from_slice(b"NONCE_DOMAIN");
    input.extend_from_slice(&[5u8; 32]);
    input.push(1);
    assert_eq!(n, blake3::hash(&input).as_bytes()[..12].to_vec());
    assert_ne!(derive_nonce("pw", &[5u8; 32], 0), n);
}

#[test]
fn keypair_zeroize_keeps_public() {
    let mut kp = keypair(vec![1u8; 32]);
    kp.zeroize();
    assert!(kp.private.is_empty());
    assert_eq!(kp.public, vec![7u8; 32]);
}

#[test]
fn ring_signature_verifies_for_any_member_position() {
    let ids: Vec<Identity> = (0..4).map(|i| Identity::generate(&format!("m{}", i)).unwrap()).collect();
    let ring: Vec<Vec<u8>> = ids.iter().map(|id| id.keypair.public.clone()).collect();
    for id in &ids {
        let sig = ring_sign(b"statement", &id.keypair.private, &ring);
        assert_eq!(sig.len(), 64 + 32 * ring.len());
        assert!(ring_verify(b"statement", &sig, &ring));
    }
    // A key outside the ring still closes the ring (at position 0).
    let outsider = Identity::generate("x").unwrap();
    let sig = ring_sign(b"statement", &outsider.keypair.private, &ring);
    assert!(ring_verify(b"statement", &sig, &ring));
    // Short private keys are hashed into a secret.
    let sig = ring_sign(b"statement", b"short", &ring);
    assert!(ring_verify(b"statement", &sig, &ring));
}

#[test]
fn ring_signature_rejections() {
    let id = Identity::generate("a").unwrap();
    let ring = vec![id.keypair.public.clone()];
    assert!(ring_sign(b"m", &id.keypair.private, &[]).is_empty());
    assert!(ring_sign(b"m", &[], &ring).is_empty());
    let sig = ring_sign(b"m", &id.keypair.private, &ring);
    assert!(ring_verify(b"m", &sig, &ring));
    assert!(!ring_verify(b"m", &sig, &[]));
    assert!(!ring_verify(b"m", &sig[..sig.len() - 1], &ring));
    let mut bad = sig.clone();
    bad[70] ^= 0x80;
    assert!(!ring_verify(b"m", &bad, &ring));
    let mut bad_hash = sig.clone();
    bad_hash[0] ^= 1;
    assert!(!ring_verify(b"m", &bad_hash, &ring));
    let other = Identity::generate("b").unwrap();
    assert!(!ring_verify(b"m", &sig, &[other.keypair.public.clone()]));
}

#[test]
fn identity_fingerprint_is_base64_of_blake3() {
    let id = Identity::generate("ops").unwrap();
    let expected = base64::engine::general_purpose::STANDARD.encode(blake3::hash(&id.keypair.public).as_bytes());
    assert_eq!(id.fingerprint(), expected);
    assert_eq!(key_fingerprint(&id.keypair.public), expected);
    assert_eq!(expected.len(), 44);
    assert_eq!(id.profile_type, "ops");
    assert_eq!(id.keypair.public.len(), 32);
    assert_eq!(id.keypair.private.len(), 32);
}

#[test]
fn identity_did_is_base58_multicodec() {
    let id = Identity::generate("ops").unwrap();
    let mut bytes = vec![0xecu8, 0x01];
    bytes.extend_from_slice(&id.keypair.public);
    assert_eq!(id.did(), format!("did:key:z{}", bs58::encode(bytes).into_string()));
}

#[test]
fn identity_stored_fields_roundtrip() {
    let id = Identity::generate("casual").unwrap();
    let (p, s, m) = id.stored_fields();
    assert_eq!(p, hex::encode(&id.keypair.public));
    let back = Identity::from_stored(&p, &s, m).unwrap();
    assert_eq!(back.keypair.public, id.keypair.public);
    assert_eq!(back.keypair.private, id.keypair.private);
    assert_eq!(back.profile_type, "casual");
    assert_eq!(Identity::from_stored("abc", &s, String::new()).err(), Some(CryptoError::InvalidKeyEncoding(HexError::OddLength)));
    assert_eq!(Identity::from_stored(&p, "zz", String::new()).err(), Some(CryptoError::InvalidKeyEncoding(HexError::InvalidCharacter)));
}

#[test]
fn identity_slot_limits() {
    let key = vec![1u8; 32];
    let nonce = vec![2u8; 12];
    assert_eq!(Identity::seal_slot(&key, &nonce, &vec![1u8; SLOT_RECORD_SIZE + 1]), Err(CryptoError::IdentitySlotOverflow));
    let sealed = Identity::seal_slot(&key, &nonce, b"record").unwrap();
    assert_eq!(sealed.len(), 1024);
    assert_eq!(Identity::open_slots(&vec![0u8; ID_FILE_SIZE - 1], "pw"), Err(CryptoError::IdentityFileTooShort));
}

#[test]
fn identity_duress_password_opens_second_slot() {
    // The same password for both slots (the hub's default duress password).
    let (_ops, _casual, salt) = Identity::generate_dual().unwrap();
    let key = derive_key("same", &salt).unwrap();
    let image = Identity::dual_file_image_with_keys(&key, &key, "same", "same", &salt, b"{\"a\":1}", b"{\"b\":2}").unwrap();
    assert_eq!(image.len(), ID_FILE_SIZE);
    let (a, b) = Identity::open_slots_with_key(&image, &key, "same");
    assert_eq!(a.unwrap(), b"{\"a\":1}".to_vec());
    assert_eq!(b.unwrap(), b"{\"b\":2}".to_vec());
}

fn noise_pair() -> (NoiseSession, NoiseSession) {
    let params: snow::params::NoiseParams = "Noise_XX_25519_ChaChaPoly_BLAKE2b".parse().unwrap();
    let ki = snow::Builder::new(params.clone()).generate_keypair().unwrap();
    let kr = snow::Builder::new(params.clone()).generate_keypair().unwrap();
    let mut init = snow::Builder::new(params.clone()).local_private_key(&ki.private).build_initiator().unwrap();
    let mut resp = snow::Builder::new(params).local_private_key(&kr.private).build_responder().unwrap();
    let mut buf = vec![0u8; 65535];
    let mut tmp = vec![0u8; 65535];
    let n = init.write_message(&[], &mut buf).unwrap();
    resp.read_message(&buf[..n], &mut tmp).unwrap();
    let n = resp.write_message(&[], &mut buf).unwrap();
    init.read_message(&buf[..n], &mut tmp).unwrap();
    let n = init.write_message(&[], &mut buf).unwrap();
    resp.read_message(&buf[..n], &mut tmp).unwrap();
    (NoiseSession::new(init).unwrap(), NoiseSession::new(resp).unwrap())
}

#[test]
fn noise_session_roundtrip_before_and_after_pq() {
    let (mut a, mut b) = noise_pair();
    let msg = vec![0x42u8; PLAINTEXT_SIZE];
    let pkt = a.encrypt(&msg).unwrap();
    assert_eq!(pkt.len(), WIRE_PACKET_SIZE);
    assert_eq!(b.decrypt(&pkt).unwrap(), msg);

    a.upgrade_to_pq(b"shared secret", true);
    b.upgrade_to_pq(b"shared secret", false);
    let pkt = a.encrypt(&msg).unwrap();
    assert_eq!(pkt.len(), WIRE_PACKET_SIZE);
    assert_eq!(b.decrypt(&pkt).unwrap(), msg);
    let back = b.encrypt(&msg).unwrap();
    assert_eq!(a.decrypt(&back).unwrap(), msg);
    assert_eq!(a.pq_send_nonce, 1);
    assert_eq!(a.pq_recv_nonce, 1);
}

#[test]
fn noise_session_refuses_wrong_sizes() {
    let (mut a, _b) = noise_pair();
    assert_eq!(a.encrypt(b"short"), Err(CryptoError::PacketSizeMismatch(5 + 16 + 16)));
}

#[test]
fn noise_session_pq_keys_must_match() {
    let (mut a, mut b) = noise_pair();
    a.upgrade_to_pq(b"one", true);
    b.upgrade_to_pq(b"two", false);
    let pkt = a.encrypt(&vec![1u8; PLAINTEXT_SIZE]).unwrap();
    assert_eq!(b.decrypt(&pkt), Err(CryptoError::PqDecryptionFailed));
}

#[test]
fn noise_rekey_thresholds() {
    let (mut a, _b) = noise_pair();
    assert!(!a.needs_rekey_after(1000));
    assert!(!a.needs_rekey());
    a.upgrade_to_pq(b"s", true);
    assert!(!a.needs_rekey_after(299));
    assert!(a.needs_rekey_after(300));
    for _ in 0..100 {
        a.increment_message_count();
    }
    assert!(a.needs_rekey_after(0));
    assert!(a.needs_rekey());
    a.reset_rekey_state();
    assert_eq!(a.message_count, 0);
    assert!(!a.needs_rekey());
}

#[test]
fn noise_pq_layer_pads_before_upgrade() {
    let (mut a, mut b) = noise_pair();
    let out = a.pq_seal(b"abc").unwrap();
    assert_eq!(out, vec![b'a', b'b', b'c', 0, 0, 0, 0, 0, 0, 0, 0, 0, 0, 0, 0, 0, 0, 0, 0]);
    assert_eq!(b.pq_open(&out).unwrap(), b"abc".to_vec());
    assert_eq!(b.pq_open(&[0u8; 15]), Err(CryptoError::PacketTooShort));
}

#[test]
fn kyber_exchange_agrees() {
    let (pk, sk) = pq_offer();
    let (ss_client, ct) = pq_respond(&pk).unwrap();
    assert_eq!(ct.len(), KYBER_CIPHERTEXT_BYTES);
    let ss_hub = pq_accept(&ct, &sk).unwrap();
    assert_eq!(ss_client, ss_hub);
    assert_eq!(pq_respond(&pk[1..]), Err(CryptoError::PqExchangeFailed));
    assert_eq!(pq_accept(&ct[1..], &sk), Err(CryptoError::PqExchangeFailed));
}

#[test]
fn hsm_refuses_a_short_signing_key() {
    let mut hsm = SoftwareHsm::new();
    hsm.load_keypair(keypair(vec![1u8; 31]));
    assert_eq!(hsm.sign(b"x"), Err(HsmError::KeyTooShort));
}

#[test]
fn identity_file_bytes_are_the_sealed_slots() {
    let (_ops, _casual, salt) = Identity::generate_dual().unwrap();
    let key_a = derive_key("alpha", &salt).unwrap();
    let key_b = derive_key("beta", &salt).unwrap();
    let image = Identity::dual_file_image_with_keys(&key_a, &key_b, "alpha", "beta", &salt, b"ops", b"casual").unwrap();
    let seal = |key: &[u8], nonce: &[u8], record: &[u8]| {
        let mut padded = record.to_vec();
        padded.resize(SLOT_RECORD_SIZE, 0);
        chacha20poly1305::ChaCha20Poly1305::new(chacha20poly1305::Key::from_slice(key))
            .encrypt(chacha20poly1305::Nonce::from_slice(nonce), padded.as_slice())
            .unwrap()
    };
    let mut expected = salt.clone();
    expected.extend(seal(&key_a, &derive_nonce("alpha", &salt, 0), b"ops"));
    expected.extend(seal(&key_b, &derive_nonce("beta", &salt, 1), b"casual"));
    assert_eq!(image, expected);
}

#[test]
fn encryption_needs_a_full_plaintext() {
    let (mut a, _) = noise_pair();
    assert_eq!(a.encrypt(&vec![0u8; PLAINTEXT_SIZE - 1]), Err(CryptoError::PacketSizeMismatch(WIRE_PACKET_SIZE - 1)));
    a.upgrade_to_pq(&[5u8; 32], true);
    assert!(a.encrypt(&vec![0u8; PLAINTEXT_SIZE + 1]).is_err());
    assert_eq!(a.encrypt(&vec![0u8; PLAINTEXT_SIZE]).unwrap().len(), WIRE_PACKET_SIZE);
}

#[test]
fn rotated_keys_stay_in_step() {
    let (mut a, mut b) = noise_pair();
    a.upgrade_to_pq(&[5u8; 32], true);
    b.upgrade_to_pq(&[5u8; 32], false);
    let first_key = a.pq_tx_key.clone();
    for i in 0..250u32 {
        let mut p = vec![0u8; PLAINTEXT_SIZE];
        p[..4].copy_from_slice(&i.to_be_bytes());
        a.rotate_due_keys();
        let wire = a.encrypt(&p).unwrap();
        b.rotate_due_keys();
        assert_eq!(b.decrypt(&wire).unwrap(), p);
        b.rotate_due_keys();
        let back = b.encrypt(&p).unwrap();
        a.rotate_due_keys();
        assert_eq!(a.decrypt(&back).unwrap(), p);
    }
    assert_ne!(a.pq_tx_key, first_key);
    assert_eq!(a.pq_send_nonce, 50);
    assert_eq!(a.pq_tx_key, b.pq_rx_key);
    assert_eq!(a.pq_rx_key, b.pq_tx_key);
}

#[test]
fn same_password_loads_the_real_profile() {
    // Both slots open with one password: the real ("ops") slot is the one used.
    let (ops, casual, salt) = Identity::generate_dual().unwrap();
    let key = derive_key("same", &salt).unwrap();
    let image = Identity::dual_file_image_with_keys(&key, &key, "same", "same", &salt, b"ops", b"casual").unwrap();
    let (a, b) = Identity::open_slots_with_key(&image, &key, "same");
    assert!(a.is_some() && b.is_some());
    let id = Identity::from_slots(Some(ops.stored_fields()), Some(casual.stored_fields())).unwrap().unwrap();
    assert_eq!(id.profile_type, "ops");
    assert_eq!(id.keypair.public, ops.keypair.public);
    assert_eq!(id.keypair.private, ops.keypair.private);
}

#[test]
fn slot_choice_falls_back_to_the_duress_slot() {
    let casual = Identity::generate("casual").unwrap();
    let id = Identity::from_slots(None, Some(casual.stored_fields())).unwrap().unwrap();
    assert_eq!(id.profile_type, "casual");
    assert_eq!(id.keypair.public, casual.keypair.public);
    assert!(Identity::from_slots(None, None).is_none());
    // A real slot with a bad key decides the result: its error, not the duress profile.
    let bad = ("abc".to_string(), "00".to_string(), "ops".to_string());
    assert_eq!(Identity::from_slots(Some(bad), Some(casual.stored_fields())).unwrap().err(),
        Some(CryptoError::InvalidKeyEncoding(HexError::OddLength)));
}

#[test]
fn hsm_signature_is_thirty_two_bytes() {
    let mut hsm = SoftwareHsm::new();
    hsm.load_keypair(keypair(vec![7u8; 64]));
    assert_eq!(hsm.sign(b"a longer message to sign").unwrap().len(), 32);
}

#[test]
fn send_key_rotates_after_five_minutes_and_receiver_follows() {
    let (mut a, mut b) = noise_pair();
    a.upgrade_to_pq(&[5u8; 32], true);
    b.upgrade_to_pq(&[5u8; 32], false);
    let p = vec![3u8; PLAINTEXT_SIZE];
    let wire = a.encrypt(&p).unwrap();
    assert_eq!(b.decrypt(&wire).unwrap(), p);
    assert_eq!(a.message_count, 1);
    let old_key = a.pq_tx_key.clone();
    // Four minutes: nothing is due.
    a.rotate_due_keys_at(240);
    assert_eq!(a.pq_tx_key, old_key);
    // Five minutes: the send key moves on and the rekey state starts again.
    a.rotate_due_keys_at(300);
    assert_ne!(a.pq_tx_key, old_key);
    assert_eq!(a.pq_send_nonce, 0);
    assert_eq!(a.message_count, 0);
    assert!(!a.needs_rekey_after(0));
    // The receiver, still on the old key, follows at the next message.
    let wire = a.encrypt(&p).unwrap();
    assert_eq!(b.decrypt(&wire).unwrap(), p);
    assert_eq!(b.pq_rx_key, a.pq_tx_key);
    assert_eq!(b.pq_recv_nonce, 1);
    let wire = a.encrypt(&p).unwrap();
    assert_eq!(b.decrypt(&wire).unwrap(), p);
    assert_eq!(b.pq_recv_nonce, 2);
}

#[test]
fn encryption_errors_name_their_cause() {
    let (mut a, _b) = noise_pair();
    assert_eq!(a.encrypt(&vec![0u8; PLAINTEXT_SIZE - 1]), Err(CryptoError::PacketSizeMismatch(WIRE_PACKET_SIZE - 1)));
    a.upgrade_to_pq(&[5u8; 32], true);
    assert_eq!(a.encrypt(&vec![0u8; PLAINTEXT_SIZE + 1]), Err(CryptoError::PacketSizeMismatch(WIRE_PACKET_SIZE + 1)));
    // The send nonce moved on for each sealed attempt.
    assert_eq!(a.pq_send_nonce, 1);
}
