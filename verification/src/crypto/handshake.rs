//! The Noise XX handshake, as the steps between which the caller carries
//! packets: the client writes, reads the hub's reply and writes again; the hub
//! reads, replies and reads again. Afterwards each side names its peer by the
//! fingerprint of the peer's static key, and the client refuses a hub whose
//! fingerprint is not the one it was given.

use vstd::prelude::*;
use crate::bytes::copy_range;
use crate::crypto::identity::{fingerprint_of, key_fingerprint, noise_protocol_name};
use crate::crypto::noise::NOISE_MAX_MESSAGE;
use crate::error::CryptoError;
use crate::text::chars_of;

verus! {

/// `Builder::new(pattern).local_private_key(private).build_initiator()`; the error
/// is its text. Setting the key copies it into a 32-byte array, so a longer
/// key panics. With the default resolver the protocol of
/// `noise_protocol_name` builds: its parts all resolve, the static key it
/// needs is given, and it needs no remote key or PSK. The state built, which
/// holds the key, is opaque here.
#[verifier::external_body]
fn noise_initiator(pattern: &str, private: &[u8]) -> (r: Result<snow::HandshakeState, String>)
    requires
        private@.len() <= 32,
    ensures
        pattern@ == noise_protocol_name() ==> r is Ok,
{
    let params: snow::params::NoiseParams = pattern.parse().map_err(|e: snow::Error| format!("{}", e))?;
    snow::Builder::new(params).local_private_key(private).build_initiator().map_err(|e| format!("{}", e))
}

/// `Builder::new(pattern).local_private_key(private).build_responder()`; the error
/// is its text. Setting the key copies it into a 32-byte array, so a longer
/// key panics. With the default resolver the protocol of
/// `noise_protocol_name` builds: its parts all resolve, the static key it
/// needs is given, and it needs no remote key or PSK. The state built, which
/// holds the key, is opaque here.
#[verifier::external_body]
fn noise_responder(pattern: &str, private: &[u8]) -> (r: Result<snow::HandshakeState, String>)
    requires
        private@.len() <= 32,
    ensures
        pattern@ == noise_protocol_name() ==> r is Ok,
{
    let params: snow::params::NoiseParams = pattern.parse().map_err(|e: snow::Error| format!("{}", e))?;
    snow::Builder::new(params).local_private_key(private).build_responder().map_err(|e| format!("{}", e))
}

/// `HandshakeState::write_message`: the next handshake message, with `payload`,
/// written into `buf`; returns its length. The error is its text. Some
/// tokens are written before their full size is checked against `buf`, so a
/// short buffer can panic: `buf` must hold the largest Noise message.
#[verifier::external_body]
fn handshake_write(hs: &mut snow::HandshakeState, payload: &[u8], buf: &mut Vec<u8>) -> (r: Result<usize, String>)
    requires
        old(buf)@.len() >= NOISE_MAX_MESSAGE,
    ensures
        final(buf)@.len() == old(buf)@.len(),
        r matches Ok(n) ==> n <= old(buf)@.len() && n <= NOISE_MAX_MESSAGE,
{
    hs.write_message(payload, buf.as_mut_slice()).map_err(|e| format!("{}", e))
}

/// `HandshakeState::read_message`: reads the peer's handshake message, writing
/// its payload into `buf`; returns the payload's length. The error is its text.
#[verifier::external_body]
fn handshake_read(hs: &mut snow::HandshakeState, message: &[u8], buf: &mut Vec<u8>) -> (r: Result<usize, String>)
    requires
        old(buf)@.len() >= NOISE_MAX_MESSAGE,
    ensures
        final(buf)@.len() == old(buf)@.len(),
        message@.len() > NOISE_MAX_MESSAGE ==> r is Err,
{
    hs.read_message(message, buf.as_mut_slice()).map_err(|e| format!("{}", e))
}

/// The handshake state of the side that connects, for a static private key
/// of at most 32 bytes (an X25519 key).
pub fn start_initiator(private: &[u8]) -> (r: Result<snow::HandshakeState, CryptoError>)
    requires
        private@.len() <= 32,
    ensures
        r is Ok,
{
    match noise_initiator(crate::crypto::identity::noise_pattern(), private) {
        Ok(hs) => Ok(hs),
        Err(msg) => Err(CryptoError::NoiseHandshakeFailed(msg)),
    }
}

/// The handshake state of the hub, for a static private key of at most 32
/// bytes (an X25519 key).
pub fn start_responder(private: &[u8]) -> (r: Result<snow::HandshakeState, CryptoError>)
    requires
        private@.len() <= 32,
    ensures
        r is Ok,
{
    match noise_responder(crate::crypto::identity::noise_pattern(), private) {
        Ok(hs) => Ok(hs),
        Err(msg) => Err(CryptoError::NoiseHandshakeFailed(msg)),
    }
}

/// Writes the next handshake message, with an empty payload.
fn write_step(hs: &mut snow::HandshakeState) -> (r: Result<Vec<u8>, CryptoError>)
    ensures
        r matches Ok(m) ==> m@.len() <= NOISE_MAX_MESSAGE,
        r matches Err(e) ==> e is NoiseHandshakeFailed,
{
    let mut buf: Vec<u8> = vec![0u8; NOISE_MAX_MESSAGE];
    let empty: Vec<u8> = Vec::new();
    match handshake_write(hs, empty.as_slice(), &mut buf) {
        Ok(n) => Ok(copy_range(buf.as_slice(), 0, n)),
        Err(msg) => Err(CryptoError::NoiseHandshakeFailed(msg)),
    }
}

/// Reads the peer's next handshake message.
fn read_step(hs: &mut snow::HandshakeState, message: &[u8]) -> (r: Result<(), CryptoError>)
    ensures
        message@.len() > NOISE_MAX_MESSAGE ==> r is Err,
        r matches Err(e) ==> e is NoiseHandshakeFailed,
{
    let mut buf: Vec<u8> = vec![0u8; NOISE_MAX_MESSAGE];
    match handshake_read(hs, message, &mut buf) {
        Ok(_) => Ok(()),
        Err(msg) => Err(CryptoError::NoiseHandshakeFailed(msg)),
    }
}

/// The client's first message (`-> e`).
pub fn client_hello(hs: &mut snow::HandshakeState) -> (r: Result<Vec<u8>, CryptoError>)
    ensures
        r matches Ok(m) ==> m@.len() <= NOISE_MAX_MESSAGE,
        r matches Err(e) ==> e is NoiseHandshakeFailed,
{
    write_step(hs)
}

/// The client reads the hub's reply (`<- e, ee, s, es`) and answers (`-> s, se`).
pub fn client_finish(hs: &mut snow::HandshakeState, reply: &[u8]) -> (r: Result<Vec<u8>, CryptoError>)
    ensures
        reply@.len() > NOISE_MAX_MESSAGE ==> r is Err,
        r matches Ok(m) ==> m@.len() <= NOISE_MAX_MESSAGE,
        r matches Err(e) ==> e is NoiseHandshakeFailed,
{
    read_step(hs, reply)?;
    write_step(hs)
}

/// The hub reads the client's first message and replies.
pub fn server_reply(hs: &mut snow::HandshakeState, hello: &[u8]) -> (r: Result<Vec<u8>, CryptoError>)
    ensures
        hello@.len() > NOISE_MAX_MESSAGE ==> r is Err,
        r matches Ok(m) ==> m@.len() <= NOISE_MAX_MESSAGE,
        r matches Err(e) ==> e is NoiseHandshakeFailed,
{
    read_step(hs, hello)?;
    write_step(hs)
}

/// The hub reads the client's last handshake message.
pub fn server_finish(hs: &mut snow::HandshakeState, last: &[u8]) -> (r: Result<(), CryptoError>)
    ensures
        last@.len() > NOISE_MAX_MESSAGE ==> r is Err,
        r matches Err(e) ==> e is NoiseHandshakeFailed,
{
    read_step(hs, last)
}

/// The fingerprint by which the hub names a client: that of the client's
/// static key. A session without one is refused.
pub fn peer_fingerprint(remote_static: Option<Vec<u8>>) -> (r: Result<String, CryptoError>)
    ensures
        match remote_static {
            Some(k) => r matches Ok(fp) && fp@ == fingerprint_of(k@),
            None => r == Err::<String, CryptoError>(CryptoError::MissingRemoteKey),
        },
{
    match remote_static {
        Some(k) => Ok(key_fingerprint(k.as_slice())),
        None => Err(CryptoError::MissingRemoteKey),
    }
}

/// The client's check of the hub: its static key must have the fingerprint
/// the user gave. Returns that fingerprint.
pub fn check_peer(remote_static: Option<Vec<u8>>, expected: &str) -> (r: Result<String, CryptoError>)
    ensures
        match remote_static {
            Some(k) => if fingerprint_of(k@) == expected@ {
                r matches Ok(fp) && fp@ == expected@
            } else {
                r == Err::<String, CryptoError>(CryptoError::FingerprintMismatch)
            },
            None => r == Err::<String, CryptoError>(CryptoError::MissingRemoteKey),
        },
{
    let fp = peer_fingerprint(remote_static)?;
    let want = chars_of(expected);
    let got = chars_of(fp.as_str());
    if crate::text::chars_eq(&got, want.as_slice()) {
        Ok(fp)
    } else {
        Err(CryptoError::FingerprintMismatch)
    }
}

} // verus!
