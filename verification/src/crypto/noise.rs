//! A Noise transport session with an optional post-quantum inner layer.
//!
//! Before the Kyber upgrade each plaintext is padded with `PQ_TAG_SIZE` zero
//! bytes; after it, each plaintext is sealed with ChaCha20-Poly1305 under a
//! key derived from the shared secret, with a counter nonce per direction.

use vstd::prelude::*;
use crate::bytes::{push_all, copy_range, pad_zeros, zeros, be64, u64_to_be};
use crate::crypto::primitives::{blake3_digest, blake3_hash, chacha_open, chacha_seal, aead_accepts,
    chacha20poly1305_encrypt, chacha20poly1305_decrypt};
use crate::error::CryptoError;
use crate::{PQ_TAG_SIZE, WIRE_PACKET_SIZE, PLAINTEXT_SIZE};

verus! {

#[verifier::external_type_specification]
#[verifier::external_body]
pub struct ExTransportState(snow::TransportState);

#[verifier::external_type_specification]
#[verifier::external_body]
pub struct ExHandshakeState(snow::HandshakeState);

#[verifier::external_type_specification]
#[verifier::external_body]
pub struct ExInstant(std::time::Instant);

/// Largest Noise message.
pub const NOISE_MAX_MESSAGE: usize = 65535;
/// Messages after which a post-quantum session is rekeyed.
pub const REKEY_MESSAGE_THRESHOLD: u64 = 100;
/// Seconds after which a post-quantum session is rekeyed.
pub const REKEY_TIME_THRESHOLD_SECS: u64 = 300;

/// `HandshakeState::into_transport_mode`; the error is its text.
#[verifier::external_body]
fn into_transport(handshake: snow::HandshakeState) -> (r: Result<snow::TransportState, String>)
{
    handshake.into_transport_mode().map_err(|e| format!("{}", e))
}

/// `TransportState::write_message`: encrypts `payload` into `buf`; the error is its text.
#[verifier::external_body]
fn transport_write(t: &mut snow::TransportState, payload: &[u8], buf: &mut Vec<u8>) -> (r: Result<usize, String>)
    ensures
        final(buf)@.len() == old(buf)@.len(),
        payload@.len() + 16 > NOISE_MAX_MESSAGE || payload@.len() + 16 > old(buf)@.len() ==> r is Err,
        r matches Ok(n) ==> n == payload@.len() + 16,
{
    t.write_message(payload, buf.as_mut_slice()).map_err(|e| format!("{}", e))
}

/// `TransportState::read_message`: decrypts `payload` into `buf`; the error is its text.
#[verifier::external_body]
fn transport_read(t: &mut snow::TransportState, payload: &[u8], buf: &mut Vec<u8>) -> (r: Result<usize, String>)
    ensures
        final(buf)@.len() == old(buf)@.len(),
        payload@.len() > NOISE_MAX_MESSAGE || payload@.len() < 16 ==> r is Err,
        r matches Ok(n) ==> n + 16 == payload@.len() && n <= old(buf)@.len(),
{
    t.read_message(payload, buf.as_mut_slice()).map_err(|e| format!("{}", e))
}

/// `TransportState::get_remote_static`: the peer's static public key, when known.
#[verifier::external_body]
fn transport_remote_static(t: &snow::TransportState) -> (r: Option<Vec<u8>>)
{
    t.get_remote_static().map(|k| k.to_vec())
}

/// `Instant::now`.
#[verifier::external_body]
fn instant_now() -> (i: std::time::Instant)
{
    std::time::Instant::now()
}

/// Whole seconds since an instant (`Instant::elapsed().as_secs()`).
#[verifier::external_body]
fn elapsed_secs(i: &std::time::Instant) -> (s: u64)
{
    i.elapsed().as_secs()
}

/// "ISOTOPE_PQ_INITIATOR"
pub open spec fn pq_initiator_domain() -> Seq<u8> {
    seq![73u8, 83, 79, 84, 79, 80, 69, 95, 80, 81, 95, 73, 78, 73, 84, 73, 65, 84, 79, 82]
}

/// "ISOTOPE_PQ_RESPONDER"
pub open spec fn pq_responder_domain() -> Seq<u8> {
    seq![73u8, 83, 79, 84, 79, 80, 69, 95, 80, 81, 95, 82, 69, 83, 80, 79, 78, 68, 69, 82]
}

/// The key the initiator sends with (and the responder receives with).
pub open spec fn pq_initiator_key(shared_secret: Seq<u8>) -> Seq<u8> {
    blake3_digest(pq_initiator_domain() + shared_secret)
}

/// The key the responder sends with (and the initiator receives with).
pub open spec fn pq_responder_key(shared_secret: Seq<u8>) -> Seq<u8> {
    blake3_digest(pq_responder_domain() + shared_secret)
}

/// The nonce of message `counter`: four zero bytes and the big-endian counter.
pub open spec fn pq_nonce(counter: u64) -> Seq<u8> {
    seq![0u8, 0, 0, 0] + be64(counter)
}

/// The inner key a side sends with after an upgrade from `shared_secret`.
pub open spec fn pq_send_key(shared_secret: Seq<u8>, is_initiator: bool) -> Seq<u8> {
    if is_initiator { pq_initiator_key(shared_secret) } else { pq_responder_key(shared_secret) }
}

/// The inner key a side receives with after an upgrade from `shared_secret`.
pub open spec fn pq_receive_key(shared_secret: Seq<u8>, is_initiator: bool) -> Seq<u8> {
    if is_initiator { pq_responder_key(shared_secret) } else { pq_initiator_key(shared_secret) }
}

/// Both sides of an upgrade from one shared secret agree: the sender's send
/// key is the other side's receive key, so what one side's inner layer seals
/// at a counter, the other side's inner layer opens at that counter.
pub proof fn lemma_pq_sides_agree(shared_secret: Seq<u8>, sender_is_initiator: bool, counter: u64,
    sealed: Seq<u8>, plaintext: Seq<u8>)
    requires
        pq_layer_in(Some(pq_send_key(shared_secret, sender_is_initiator)), counter, sealed)
            == Ok::<Seq<u8>, CryptoError>(plaintext),
    ensures
        pq_receive_key(shared_secret, !sender_is_initiator) == pq_send_key(shared_secret, sender_is_initiator),
        pq_send_key(shared_secret, !sender_is_initiator) == pq_receive_key(shared_secret, sender_is_initiator),
        pq_layer_in(Some(pq_receive_key(shared_secret, !sender_is_initiator)), counter, sealed)
            == Ok::<Seq<u8>, CryptoError>(plaintext),
{
}

/// Distinct counters give distinct nonces, so messages sealed under one
/// key never share a nonce.
pub proof fn lemma_pq_nonces_distinct(a: u64, b: u64)
    requires
        a != b,
    ensures
        pq_nonce(a) != pq_nonce(b),
{
    if pq_nonce(a) == pq_nonce(b) {
        assert(be64(a) == pq_nonce(a).skip(4));
        assert(be64(b) == pq_nonce(b).skip(4));
        assert(be64(a) =~= be64(b));
        assert(be64(a)[0] == be64(b)[0] && be64(a)[1] == be64(b)[1] && be64(a)[2] == be64(b)[2]
            && be64(a)[3] == be64(b)[3] && be64(a)[4] == be64(b)[4] && be64(a)[5] == be64(b)[5]
            && be64(a)[6] == be64(b)[6] && be64(a)[7] == be64(b)[7]);
        assert(a / 0x100_0000_0000_0000 < 256) by (bit_vector);
        assert(b / 0x100_0000_0000_0000 < 256) by (bit_vector);
        assert(a / 0x100_0000_0000_0000 == b / 0x100_0000_0000_0000);
        assert((a / 0x1_0000_0000_0000) % 256 == (b / 0x1_0000_0000_0000) % 256);
        assert((a / 0x100_0000_0000) % 256 == (b / 0x100_0000_0000) % 256);
        assert((a / 0x1_0000_0000) % 256 == (b / 0x1_0000_0000) % 256);
        assert((a / 0x100_0000) % 256 == (b / 0x100_0000) % 256);
        assert((a / 0x1_0000) % 256 == (b / 0x1_0000) % 256);
        assert((a / 0x100) % 256 == (b / 0x100) % 256);
        assert(a % 256 == b % 256);
        assert(a == b) by (bit_vector)
            requires
                a / 0x100_0000_0000_0000 == b / 0x100_0000_0000_0000,
                (a / 0x1_0000_0000_0000) % 256 == (b / 0x1_0000_0000_0000) % 256,
                (a / 0x100_0000_0000) % 256 == (b / 0x100_0000_0000) % 256,
                (a / 0x1_0000_0000) % 256 == (b / 0x1_0000_0000) % 256,
                (a / 0x100_0000) % 256 == (b / 0x100_0000) % 256,
                (a / 0x1_0000) % 256 == (b / 0x1_0000) % 256,
                (a / 0x100) % 256 == (b / 0x100) % 256,
                a % 256 == b % 256;
    }
}

/// "ISOTOPE_PQ_REKEY"
pub open spec fn pq_rekey_domain() -> Seq<u8> {
    seq![73u8, 83, 79, 84, 79, 80, 69, 95, 80, 81, 95, 82, 69, 75, 69, 89]
}

/// The key that follows `key` when it is rotated.
pub open spec fn ratchet_key(key: Seq<u8>) -> Seq<u8> {
    blake3_digest(pq_rekey_domain() + key)
}

/// One direction's inner key and counter after a rotation check: a key that
/// has protected `REKEY_MESSAGE_THRESHOLD` messages is replaced by the next
/// one and its counter starts again.
pub open spec fn rotated(key: Option<Seq<u8>>, counter: u64) -> (Option<Seq<u8>>, u64) {
    match key {
        Some(k) => if counter >= REKEY_MESSAGE_THRESHOLD { (Some(ratchet_key(k)), 0) } else { (key, counter) },
        None => (key, counter),
    }
}

/// The send direction is due for a new key: it has sealed 100 messages, or
/// 100 messages were counted or five minutes passed since its key was set.
pub open spec fn send_rotation_due(key: Option<Seq<u8>>, counter: u64, message_count: u64, elapsed_secs: u64) -> bool {
    key is Some && (counter >= REKEY_MESSAGE_THRESHOLD || needs_rekey_spec(true, message_count, elapsed_secs))
}

/// What the receiving inner layer makes of a Noise plaintext: the result,
/// then its receive key and counter. A message that the current key does not
/// open is tried under the next key at counter 0 (the sender rotated early,
/// after five minutes); when that opens it, the receiver moves to that key.
pub open spec fn pq_receive(rx: Option<Seq<u8>>, counter: u64, noise_plain: Seq<u8>)
    -> (Result<Seq<u8>, CryptoError>, Option<Seq<u8>>, int) {
    match rx {
        None => (pq_layer_in(None, counter, noise_plain), None, counter as int),
        Some(k) => match pq_layer_in(Some(k), counter, noise_plain) {
            Ok(p) => (Ok(p), Some(k), counter + 1),
            Err(e) => match pq_layer_in(Some(ratchet_key(k)), 0, noise_plain) {
                Ok(p) => (Ok(p), Some(ratchet_key(k)), 1),
                Err(_) => (Err(e), Some(k), counter + 1),
            },
        },
    }
}

/// A receiver follows a sender that rotated early: when a message was sealed
/// under the next key at counter 0 and the receiver's current key does not
/// open it, the receiver opens it under the next key and both sides then
/// hold that key at counter 1; when the current key does open it, that
/// result stands and the key is kept.
pub proof fn lemma_receiver_follows_early_rotation(key: Seq<u8>, counter: u64, sealed: Seq<u8>, plaintext: Seq<u8>)
    requires
        pq_layer_in(Some(ratchet_key(key)), 0, sealed) == Ok::<Seq<u8>, CryptoError>(plaintext),
    ensures
        pq_layer_in(Some(key), counter, sealed) is Err ==> pq_receive(Some(key), counter, sealed)
            == (Ok::<Seq<u8>, CryptoError>(plaintext), Some(ratchet_key(key)), 1int),
        pq_layer_in(Some(key), counter, sealed) is Ok ==> pq_receive(Some(key), counter, sealed)
            == (pq_layer_in(Some(key), counter, sealed), Some(key), counter + 1),
{
}

/// Rotation keeps the two sides together: when the sender's key and counter
/// for a direction are the receiver's, they still are after both check for
/// rotation, so what one side seals the other still opens.
pub proof fn lemma_rotation_keeps_sides_agreed(send_key: Option<Seq<u8>>, send_counter: u64,
    receive_key: Option<Seq<u8>>, receive_counter: u64)
    requires
        send_key == receive_key,
        send_counter == receive_counter,
    ensures
        rotated(send_key, send_counter) == rotated(receive_key, receive_counter),
{
}

/// An established session.
pub struct NoiseSession {
    pub transport: snow::TransportState,
    pub buf: Vec<u8>,
    pub pq_tx_key: Option<Vec<u8>>,
    pub pq_rx_key: Option<Vec<u8>>,
    pub pq_send_nonce: u64,
    pub pq_recv_nonce: u64,
    pub message_count: u64,
    pub session_start: std::time::Instant,
    /// The inner-layer payloads handed to the Noise transport for sending, in order.
    pub sent_inner: Ghost<Seq<Seq<u8>>>,
}

/// The inner payload of a plaintext under an optional send key.
pub open spec fn pq_layer_out(tx: Option<Seq<u8>>, counter: u64, plaintext: Seq<u8>) -> Seq<u8> {
    match tx {
        Some(k) => chacha_seal(k, pq_nonce(counter), plaintext),
        None => plaintext + zeros(PQ_TAG_SIZE as nat),
    }
}

/// What the inner layer gives back for a Noise plaintext under an optional receive key.
pub open spec fn pq_layer_in(rx: Option<Seq<u8>>, counter: u64, noise_plain: Seq<u8>) -> Result<Seq<u8>, CryptoError> {
    match rx {
        Some(k) => match chacha_open(k, pq_nonce(counter), noise_plain) {
            Some(p) => Ok(p),
            None => Err(CryptoError::PqDecryptionFailed),
        },
        None => if noise_plain.len() < PQ_TAG_SIZE {
            Err(CryptoError::PacketTooShort)
        } else {
            Ok(noise_plain.take(noise_plain.len() - PQ_TAG_SIZE))
        },
    }
}

/// A result with its bytes taken by their view.
pub open spec fn result_view(r: Result<Vec<u8>, CryptoError>) -> Result<Seq<u8>, CryptoError> {
    match r {
        Ok(p) => Ok(p@),
        Err(e) => Err(e),
    }
}

pub open spec fn key_view(k: Option<Vec<u8>>) -> Option<Seq<u8>> {
    match k {
        Some(k) => Some(k@),
        None => None,
    }
}

/// Whether a session is due for a new key.
pub open spec fn needs_rekey_spec(pq_active: bool, message_count: u64, elapsed_secs: u64) -> bool {
    pq_active && (message_count >= REKEY_MESSAGE_THRESHOLD || elapsed_secs >= REKEY_TIME_THRESHOLD_SECS)
}

/// The nonce bytes of a counter.
fn pq_nonce_bytes(counter: u64) -> (n: Vec<u8>)
    ensures
        n@ == pq_nonce(counter),
        n@.len() == 12,
{
    let mut n: Vec<u8> = vec![0u8, 0, 0, 0];
    let c = u64_to_be(counter);
    push_all(&mut n, c.as_slice());
    assert(n@ =~= pq_nonce(counter));
    n
}

/// The next inner key.
fn ratchet(key: &Vec<u8>) -> (r: Vec<u8>)
    ensures
        r@ == ratchet_key(key@),
        r@.len() == 32,
{
    let mut input: Vec<u8> = vec![73u8, 83, 79, 84, 79, 80, 69, 95, 80, 81, 95, 82, 69, 75, 69, 89];
    assert(input@ =~= pq_rekey_domain());
    push_all(&mut input, key.as_slice());
    blake3_hash(input.as_slice())
}

impl NoiseSession {
    /// The invariant: a Noise-sized buffer and 32-byte inner keys.
    pub open spec fn wf(&self) -> bool {
        &&& self.buf@.len() == NOISE_MAX_MESSAGE
        &&& self.pq_tx_key matches Some(k) ==> k@.len() == 32
        &&& self.pq_rx_key matches Some(k) ==> k@.len() == 32
    }

    /// A session from a finished handshake, before the post-quantum upgrade.
    pub fn new(handshake: snow::HandshakeState) -> (r: Result<NoiseSession, CryptoError>)
        ensures
            r matches Ok(s) ==> s.wf() && s.pq_tx_key is None && s.pq_rx_key is None
                && s.pq_send_nonce == 0 && s.pq_recv_nonce == 0 && s.message_count == 0,
            r matches Err(e) ==> e is NoiseHandshakeFailed,
    {
        let transport = match into_transport(handshake) {
            Ok(t) => t,
            Err(msg) => { return Err(CryptoError::NoiseHandshakeFailed(msg)); },
        };
        Ok(NoiseSession {
            transport,
            buf: vec![0u8; NOISE_MAX_MESSAGE],
            pq_tx_key: None,
            pq_rx_key: None,
            pq_send_nonce: 0,
            pq_recv_nonce: 0,
            message_count: 0,
            session_start: instant_now(),
            sent_inner: Ghost(Seq::empty()),
        })
    }

    /// Rotates the inner keys that are due, for a send key set `elapsed_secs`
    /// seconds ago: the send key after 100 messages or five minutes (its
    /// counter, message count and clock then start again, so it is no longer
    /// due); the receive key after 100 messages in its direction, the same
    /// message at which the other side rotates its send key. A send key the
    /// other side did not expect yet is followed by its receiving side
    /// (`pq_receive`).
    pub fn rotate_due_keys_at(&mut self, elapsed_secs: u64)
        requires
            old(self).wf(),
        ensures
            final(self).wf(),
            send_rotation_due(key_view(old(self).pq_tx_key), old(self).pq_send_nonce, old(self).message_count, elapsed_secs)
                ==> key_view(final(self).pq_tx_key) == Some(ratchet_key(key_view(old(self).pq_tx_key)->0))
                    && final(self).pq_send_nonce == 0 && final(self).message_count == 0
                    && !needs_rekey_spec(true, final(self).message_count, 0),
            !send_rotation_due(key_view(old(self).pq_tx_key), old(self).pq_send_nonce, old(self).message_count, elapsed_secs)
                ==> final(self).pq_tx_key == old(self).pq_tx_key && final(self).pq_send_nonce == old(self).pq_send_nonce
                    && final(self).message_count == old(self).message_count,
            (key_view(final(self).pq_rx_key), final(self).pq_recv_nonce)
                == rotated(key_view(old(self).pq_rx_key), old(self).pq_recv_nonce),
            final(self).sent_inner == old(self).sent_inner,
    {
        if self.pq_send_nonce >= REKEY_MESSAGE_THRESHOLD || self.message_count >= REKEY_MESSAGE_THRESHOLD
            || elapsed_secs >= REKEY_TIME_THRESHOLD_SECS {
            if let Some(k) = self.pq_tx_key.take() {
                self.pq_tx_key = Some(ratchet(&k));
                self.pq_send_nonce = 0;
                self.message_count = 0;
                self.session_start = instant_now();
            }
        }
        if self.pq_recv_nonce >= REKEY_MESSAGE_THRESHOLD {
            if let Some(k) = self.pq_rx_key.take() {
                self.pq_rx_key = Some(ratchet(&k));
                self.pq_recv_nonce = 0;
            }
        }
    }

    /// Rotates the inner keys that are due now, by the session's clock.
    pub fn rotate_due_keys(&mut self)
        requires
            old(self).wf(),
        ensures
            final(self).wf(),
            (old(self).pq_tx_key is Some && (old(self).pq_send_nonce >= REKEY_MESSAGE_THRESHOLD
                || old(self).message_count >= REKEY_MESSAGE_THRESHOLD))
                ==> key_view(final(self).pq_tx_key) == Some(ratchet_key(key_view(old(self).pq_tx_key)->0))
                    && final(self).pq_send_nonce == 0 && final(self).message_count == 0,
            // Whatever the clock says, the send key is kept or moves to the next one.
            (final(self).pq_tx_key == old(self).pq_tx_key && final(self).pq_send_nonce == old(self).pq_send_nonce
                && final(self).message_count == old(self).message_count)
            || (old(self).pq_tx_key is Some
                && key_view(final(self).pq_tx_key) == Some(ratchet_key(key_view(old(self).pq_tx_key)->0))
                && final(self).pq_send_nonce == 0 && final(self).message_count == 0),
            (key_view(final(self).pq_rx_key), final(self).pq_recv_nonce)
                == rotated(key_view(old(self).pq_rx_key), old(self).pq_recv_nonce),
            final(self).sent_inner == old(self).sent_inner,
    {
        let secs = elapsed_secs(&self.session_start);
        self.rotate_due_keys_at(secs);
    }

    /// Wipes the session's secrets when it is done with: the buffer and the
    /// inner keys are zeroized, the keys dropped and the counters reset.
    pub fn wipe(&mut self)
        ensures
            final(self).buf@.len() == 0,
            final(self).pq_tx_key is None,
            final(self).pq_rx_key is None,
            final(self).pq_send_nonce == 0,
            final(self).pq_recv_nonce == 0,
    {
        crate::crypto::keys::zeroize_bytes(&mut self.buf);
        self.pq_send_nonce = 0;
        self.pq_recv_nonce = 0;
        if let Some(mut k) = self.pq_tx_key.take() {
            crate::crypto::keys::zeroize_bytes(&mut k);
        }
        if let Some(mut k) = self.pq_rx_key.take() {
            crate::crypto::keys::zeroize_bytes(&mut k);
        }
    }

    /// The peer's static public key, as the handshake revealed it.
    pub fn remote_static(&self) -> (r: Option<Vec<u8>>)
    {
        transport_remote_static(&self.transport)
    }

    /// Whether a session that has run `elapsed_secs` seconds is due for a new key.
    pub fn needs_rekey_after(&self, elapsed_secs: u64) -> (b: bool)
        ensures
            b == needs_rekey_spec(self.pq_tx_key is Some, self.message_count, elapsed_secs),
    {
        self.pq_tx_key.is_some() && (self.message_count >= REKEY_MESSAGE_THRESHOLD || elapsed_secs >= REKEY_TIME_THRESHOLD_SECS)
    }

    /// Whether the session is due for a new key: after 100 messages or 5 minutes once upgraded.
    pub fn needs_rekey(&self) -> (b: bool)
        ensures
            self.pq_tx_key is None ==> !b,
            self.pq_tx_key is Some && self.message_count >= REKEY_MESSAGE_THRESHOLD ==> b,
    {
        let secs = elapsed_secs(&self.session_start);
        self.needs_rekey_after(secs)
    }

    pub fn increment_message_count(&mut self)
        requires
            old(self).message_count < u64::MAX,
        ensures
            final(self).message_count == old(self).message_count + 1,
            final(self).wf() == old(self).wf(),
            final(self).pq_tx_key == old(self).pq_tx_key,
            final(self).pq_rx_key == old(self).pq_rx_key,
            final(self).pq_send_nonce == old(self).pq_send_nonce,
            final(self).pq_recv_nonce == old(self).pq_recv_nonce,
    {
        self.message_count = self.message_count + 1;
    }

    pub fn reset_rekey_state(&mut self)
        ensures
            final(self).message_count == 0,
            final(self).wf() == old(self).wf(),
            final(self).pq_tx_key == old(self).pq_tx_key,
            final(self).pq_rx_key == old(self).pq_rx_key,
            final(self).pq_send_nonce == old(self).pq_send_nonce,
            final(self).pq_recv_nonce == old(self).pq_recv_nonce,
    {
        self.message_count = 0;
        self.session_start = instant_now();
    }

    /// Switches on the inner layer with keys derived from a Kyber shared secret.
    pub fn upgrade_to_pq(&mut self, shared_secret: &[u8], is_initiator: bool)
        requires
            old(self).wf(),
        ensures
            final(self).wf(),
            final(self).pq_send_nonce == 0,
            final(self).pq_recv_nonce == 0,
            final(self).message_count == 0,
            final(self).sent_inner == old(self).sent_inner,
            key_view(final(self).pq_tx_key) == Some(pq_send_key(shared_secret@, is_initiator)),
            key_view(final(self).pq_rx_key) == Some(pq_receive_key(shared_secret@, is_initiator)),
    {
        let mut init_input: Vec<u8> = vec![73u8, 83, 79, 84, 79, 80, 69, 95, 80, 81, 95, 73, 78, 73, 84, 73, 65, 84, 79, 82];
        assert(init_input@ =~= pq_initiator_domain());
        push_all(&mut init_input, shared_secret);
        let k_init = blake3_hash(init_input.as_slice());
        let mut resp_input: Vec<u8> = vec![73u8, 83, 79, 84, 79, 80, 69, 95, 80, 81, 95, 82, 69, 83, 80, 79, 78, 68, 69, 82];
        assert(resp_input@ =~= pq_responder_domain());
        push_all(&mut resp_input, shared_secret);
        let k_resp = blake3_hash(resp_input.as_slice());
        if is_initiator {
            self.pq_tx_key = Some(k_init);
            self.pq_rx_key = Some(k_resp);
        } else {
            self.pq_tx_key = Some(k_resp);
            self.pq_rx_key = Some(k_init);
        }
        self.pq_send_nonce = 0;
        self.pq_recv_nonce = 0;
        self.message_count = 0;
        self.session_start = instant_now();
    }

    /// The inner layer on the way out: seal under the send key, or pad before the upgrade.
    pub fn pq_seal(&mut self, plaintext: &[u8]) -> (r: Result<Vec<u8>, CryptoError>)
        requires
            old(self).wf(),
            old(self).pq_send_nonce < u64::MAX,
            plaintext@.len() + PQ_TAG_SIZE <= usize::MAX,
        ensures
            final(self).wf(),
            final(self).pq_tx_key == old(self).pq_tx_key,
            final(self).pq_rx_key == old(self).pq_rx_key,
            final(self).pq_recv_nonce == old(self).pq_recv_nonce,
            final(self).message_count == if old(self).pq_tx_key is Some && old(self).message_count < u64::MAX {
                old(self).message_count + 1 } else { old(self).message_count as int },
            final(self).pq_send_nonce == if old(self).pq_tx_key is Some { old(self).pq_send_nonce + 1 } else { old(self).pq_send_nonce as int },
            final(self).sent_inner == old(self).sent_inner,
            old(self).pq_tx_key is Some && !aead_accepts(plaintext@.len())
                ==> r == Err::<Vec<u8>, CryptoError>(CryptoError::PqEncryptionFailed),
            old(self).pq_tx_key is None || aead_accepts(plaintext@.len()) ==> (r matches Ok(out)
                && out@.len() == plaintext@.len() + 16
                && out@ == pq_layer_out(key_view(old(self).pq_tx_key), old(self).pq_send_nonce, plaintext@)
                && pq_layer_in(key_view(old(self).pq_tx_key), old(self).pq_send_nonce, out@)
                    == Ok::<Seq<u8>, CryptoError>(plaintext@)),
    {
        match &self.pq_tx_key {
            Some(key) => {
                let nonce = pq_nonce_bytes(self.pq_send_nonce);
                let sealed = chacha20poly1305_encrypt(key.as_slice(), nonce.as_slice(), plaintext);
                self.pq_send_nonce = self.pq_send_nonce + 1;
                if self.message_count < u64::MAX {
                    self.message_count = self.message_count + 1;
                }
                match sealed {
                    Some(c) => Ok(c),
                    None => Err(CryptoError::PqEncryptionFailed),
                }
            },
            None => {
                let mut padded: Vec<u8> = Vec::new();
                push_all(&mut padded, plaintext);
                pad_zeros(&mut padded, plaintext.len() + PQ_TAG_SIZE);
                assert(padded@.take(padded@.len() - PQ_TAG_SIZE) =~= plaintext@);
                Ok(padded)
            },
        }
    }

    /// The inner layer on the way in: open under the receive key (or, failing
    /// that, under the next one: see `pq_receive`), or drop the padding.
    pub fn pq_open(&mut self, noise_plain: &[u8]) -> (r: Result<Vec<u8>, CryptoError>)
        requires
            old(self).wf(),
            old(self).pq_recv_nonce < u64::MAX,
        ensures
            final(self).wf(),
            final(self).pq_tx_key == old(self).pq_tx_key,
            final(self).pq_send_nonce == old(self).pq_send_nonce,
            final(self).message_count == old(self).message_count,
            final(self).sent_inner == old(self).sent_inner,
            key_view(final(self).pq_rx_key) == pq_receive(key_view(old(self).pq_rx_key), old(self).pq_recv_nonce, noise_plain@).1,
            final(self).pq_recv_nonce == pq_receive(key_view(old(self).pq_rx_key), old(self).pq_recv_nonce, noise_plain@).2,
            match (r, pq_receive(key_view(old(self).pq_rx_key), old(self).pq_recv_nonce, noise_plain@).0) {
                (Ok(p), Ok(q)) => p@ == q,
                (Err(e), Err(f)) => e == f,
                _ => false,
            },
    {
        match self.pq_rx_key.take() {
            Some(key) => {
                let nonce = pq_nonce_bytes(self.pq_recv_nonce);
                match chacha20poly1305_decrypt(key.as_slice(), nonce.as_slice(), noise_plain) {
                    Some(p) => {
                        self.pq_rx_key = Some(key);
                        self.pq_recv_nonce = self.pq_recv_nonce + 1;
                        Ok(p)
                    },
                    None => {
                        let next = ratchet(&key);
                        let first = pq_nonce_bytes(0);
                        match chacha20poly1305_decrypt(next.as_slice(), first.as_slice(), noise_plain) {
                            Some(p) => {
                                self.pq_rx_key = Some(next);
                                self.pq_recv_nonce = 1;
                                Ok(p)
                            },
                            None => {
                                self.pq_rx_key = Some(key);
                                self.pq_recv_nonce = self.pq_recv_nonce + 1;
                                Err(CryptoError::PqDecryptionFailed)
                            },
                        }
                    },
                }
            },
            None => {
                if noise_plain.len() < PQ_TAG_SIZE {
                    return Err(CryptoError::PacketTooShort);
                }
                let p = copy_range(noise_plain, 0, noise_plain.len() - PQ_TAG_SIZE);
                assert(p@ =~= noise_plain@.take(noise_plain@.len() - PQ_TAG_SIZE));
                Ok(p)
            },
        }
    }

    /// Encrypts a plaintext into one fixed-size wire packet.
    pub fn encrypt(&mut self, plaintext: &[u8]) -> (r: Result<Vec<u8>, CryptoError>)
        requires
            old(self).wf(),
            old(self).pq_send_nonce < u64::MAX,
            plaintext@.len() + PQ_TAG_SIZE <= usize::MAX,
        ensures
            final(self).wf(),
            final(self).pq_tx_key == old(self).pq_tx_key,
            final(self).pq_rx_key == old(self).pq_rx_key,
            final(self).pq_recv_nonce == old(self).pq_recv_nonce,
            final(self).pq_send_nonce == if old(self).pq_tx_key is Some { old(self).pq_send_nonce + 1 } else { old(self).pq_send_nonce as int },
            r is Ok ==> plaintext@.len() == PLAINTEXT_SIZE,
            r matches Ok(packet) ==> packet@.len() == WIRE_PACKET_SIZE
                && pq_layer_out(key_view(old(self).pq_tx_key), old(self).pq_send_nonce, plaintext@).len() + 16 == WIRE_PACKET_SIZE,
            // The inner layer's own refusal, and only then.
            old(self).pq_tx_key is Some && !aead_accepts(plaintext@.len())
                ==> r == Err::<Vec<u8>, CryptoError>(CryptoError::PqEncryptionFailed)
                    && final(self).sent_inner@ == old(self).sent_inner@,
            (r matches Err(e) && e is PqEncryptionFailed) ==> old(self).pq_tx_key is Some && !aead_accepts(plaintext@.len()),
            // Otherwise the inner layer sealed the plaintext under the old send
            // nonce and handed that to Noise.
            !(old(self).pq_tx_key is Some && !aead_accepts(plaintext@.len())) ==> final(self).sent_inner@
                == old(self).sent_inner@.push(pq_layer_out(key_view(old(self).pq_tx_key), old(self).pq_send_nonce, plaintext@)),
            (r matches Err(e) && e is PacketSizeMismatch) ==> r == Err::<Vec<u8>, CryptoError>(
                CryptoError::PacketSizeMismatch((plaintext@.len() + 2 * PQ_TAG_SIZE) as usize))
                && plaintext@.len() != PLAINTEXT_SIZE,
            r matches Err(e) ==> e is PqEncryptionFailed || e is NoiseHandshakeFailed || e is PacketSizeMismatch,
    {
        let data = self.pq_seal(plaintext)?;
        proof {
            self.sent_inner@ = self.sent_inner@.push(data@);
        }
        let len = match transport_write(&mut self.transport, data.as_slice(), &mut self.buf) {
            Ok(n) => n,
            Err(msg) => { return Err(CryptoError::NoiseHandshakeFailed(msg)); },
        };
        if len != WIRE_PACKET_SIZE {
            return Err(CryptoError::PacketSizeMismatch(len));
        }
        Ok(copy_range(self.buf.as_slice(), 0, len))
    }

    /// Decrypts one wire packet.
    pub fn decrypt(&mut self, ciphertext: &[u8]) -> (r: Result<Vec<u8>, CryptoError>)
        requires
            old(self).wf(),
            old(self).pq_recv_nonce < u64::MAX,
        ensures
            final(self).wf(),
            final(self).pq_tx_key == old(self).pq_tx_key,
            final(self).pq_send_nonce == old(self).pq_send_nonce,
            final(self).sent_inner == old(self).sent_inner,
            (r matches Err(e) && e is NoiseHandshakeFailed) ==> final(self).pq_recv_nonce == old(self).pq_recv_nonce
                && final(self).pq_rx_key == old(self).pq_rx_key,
            // Otherwise the inner layer received what Noise decrypted.
            !(r matches Err(e) && e is NoiseHandshakeFailed) ==> exists|noise_plain: Seq<u8>|
                noise_plain.len() + 16 == ciphertext@.len()
                && #[trigger] pq_receive(key_view(old(self).pq_rx_key), old(self).pq_recv_nonce, noise_plain)
                    == (result_view(r), key_view(final(self).pq_rx_key), final(self).pq_recv_nonce as int),
            ciphertext@.len() < 16 || ciphertext@.len() > NOISE_MAX_MESSAGE ==> (r matches Err(e) && e is NoiseHandshakeFailed),
    {
        let len = match transport_read(&mut self.transport, ciphertext, &mut self.buf) {
            Ok(n) => n,
            Err(msg) => { return Err(CryptoError::NoiseHandshakeFailed(msg)); },
        };
        let noise_plain = copy_range(self.buf.as_slice(), 0, len);
        let r = self.pq_open(noise_plain.as_slice());
        assert(result_view(r) == pq_receive(key_view(old(self).pq_rx_key), old(self).pq_recv_nonce, noise_plain@).0);
        r
    }
}

} // verus!
