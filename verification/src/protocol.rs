//! Messages exchanged between clients and the hub.

use vstd::prelude::*;
use crate::bytes::{push_all, copy_range, pad_zeros, zeros, be32, be32_value, u32_to_be, u32_from_be, lemma_be32_roundtrip};
use crate::error::ProtocolError;
use crate::PLAINTEXT_SIZE;

verus! {

/// A UTC instant as seconds and nanoseconds since the Unix epoch.
#[derive(Debug, Clone, Copy, PartialEq, Eq)]
pub struct Timestamp {
    pub secs: i64,
    pub nanos: u32,
}

/// Out-of-band signals.
#[derive(Debug, Clone, Copy, PartialEq, Eq)]
pub enum SignalType {
    /// The sender is under duress and is wiping its data.
    Duress,
}

/// Everything that travels inside a packet.
pub enum WireMessage {
    Heartbeat,
    Dummy { noise: Vec<u8> },
    Version { major: u8, minor: u8 },
    Chat { sender: String, content: String, timestamp: Timestamp },
    System { content: String },
    Join { username: String, did: String, group: String },
    PeerList { peers: Vec<String> },
    DirectMessage { sender: String, target: String, content: String, timestamp: Timestamp, ttl: Option<u64> },
    FileOffer { sender: String, file_name: String, file_size: u64, id: u32 },
    FileRequest { file_id: u32, receiver: String },
    FileChunk { file_id: u32, chunk_index: u32, total_chunks: u32, data: Vec<u8> },
    Reaction { message_id: u64, emoji: String, sender: String },
    Typing { user: String, is_typing: bool },
    ReadReceipt { message_id: u64, reader: String },
    AdminCommand { command: String, target: String },
    VoicePacket { data: Vec<u8> },
    PQInit { public_key: Vec<u8> },
    PQFinish { ciphertext: Vec<u8> },
    Signal(SignalType),
}

/// Protocol version written into packets.
pub const PROTOCOL_VERSION_MAJOR: u8 = 4;
pub const PROTOCOL_VERSION_MINOR: u8 = 0;
/// Version bytes and the payload length.
pub const PACKET_HEADER_SIZE: usize = 6;

/// A serialised message as it travels inside one session plaintext: the
/// protocol version, then the payload, padded so that every packet has the
/// same size on the wire.
pub struct IsotopePacket {
    pub version_major: u8,
    pub version_minor: u8,
    pub payload: Vec<u8>,
}

/// The bytes of a packet: major and minor version, the payload's length as a
/// big-endian `u32`, the payload, and zeros up to `PLAINTEXT_SIZE`.
pub open spec fn packet_bytes(major: u8, minor: u8, payload: Seq<u8>) -> Seq<u8> {
    seq![major, minor] + be32(payload.len() as u32) + payload
        + zeros((PLAINTEXT_SIZE - PACKET_HEADER_SIZE - payload.len()) as nat)
}

/// What `IsotopePacket::from_bytes` makes of some bytes: (major, minor, payload).
pub open spec fn parse_packet(b: Seq<u8>) -> Result<(u8, u8, Seq<u8>), ProtocolError> {
    if b.len() < PACKET_HEADER_SIZE {
        Err(ProtocolError::TruncatedPacket)
    } else if b[0] != PROTOCOL_VERSION_MAJOR {
        Err(ProtocolError::UnsupportedVersion(b[0], b[1]))
    } else if be32_value(b.subrange(2, 6)) > b.len() - PACKET_HEADER_SIZE {
        Err(ProtocolError::TruncatedPacket)
    } else {
        Ok((b[0], b[1], b.subrange(6, 6 + be32_value(b.subrange(2, 6)))))
    }
}

/// A packet written by `to_bytes` is read back by `from_bytes` as it was.
pub proof fn lemma_packet_roundtrip(minor: u8, payload: Seq<u8>)
    requires
        PACKET_HEADER_SIZE + payload.len() <= PLAINTEXT_SIZE,
    ensures
        packet_bytes(PROTOCOL_VERSION_MAJOR, minor, payload).len() == PLAINTEXT_SIZE,
        parse_packet(packet_bytes(PROTOCOL_VERSION_MAJOR, minor, payload))
            == Ok::<(u8, u8, Seq<u8>), ProtocolError>((PROTOCOL_VERSION_MAJOR, minor, payload)),
{
    let b = packet_bytes(PROTOCOL_VERSION_MAJOR, minor, payload);
    let n = payload.len() as u32;
    lemma_be32_roundtrip(n);
    assert(b.subrange(2, 6) =~= be32(n));
    assert(b.subrange(6, 6 + payload.len() as int) =~= payload);
}

impl IsotopePacket {
    /// A packet of the current version around `data`, which must fit a plaintext.
    pub fn new(data: &[u8]) -> (r: Result<IsotopePacket, ProtocolError>)
        ensures
            data@.len() > PLAINTEXT_SIZE ==> r == Err::<IsotopePacket, ProtocolError>(
                ProtocolError::PayloadTooLarge(data@.len() as usize, PLAINTEXT_SIZE)),
            data@.len() <= PLAINTEXT_SIZE ==> (r matches Ok(p) && p.payload@ == data@
                && p.version_major == PROTOCOL_VERSION_MAJOR && p.version_minor == PROTOCOL_VERSION_MINOR),
    {
        if data.len() > PLAINTEXT_SIZE {
            return Err(ProtocolError::PayloadTooLarge(data.len(), PLAINTEXT_SIZE));
        }
        let payload = copy_range(data, 0, data.len());
        assert(payload@ =~= data@);
        Ok(IsotopePacket { version_major: PROTOCOL_VERSION_MAJOR, version_minor: PROTOCOL_VERSION_MINOR, payload })
    }

    /// The packet's bytes, exactly `PLAINTEXT_SIZE` of them.
    pub fn to_bytes(&self) -> (r: Result<Vec<u8>, ProtocolError>)
        ensures
            PACKET_HEADER_SIZE + self.payload@.len() > PLAINTEXT_SIZE ==> r == Err::<Vec<u8>, ProtocolError>(
                ProtocolError::PacketOverflow(
                    if PACKET_HEADER_SIZE + self.payload@.len() > usize::MAX { usize::MAX }
                    else { (PACKET_HEADER_SIZE + self.payload@.len()) as usize },
                    PLAINTEXT_SIZE)),
            PACKET_HEADER_SIZE + self.payload@.len() <= PLAINTEXT_SIZE ==> (r matches Ok(b)
                && b@ == packet_bytes(self.version_major, self.version_minor, self.payload@)
                && b@.len() == PLAINTEXT_SIZE),
    {
        if self.payload.len() > PLAINTEXT_SIZE - PACKET_HEADER_SIZE {
            return Err(ProtocolError::PacketOverflow(self.payload.len().saturating_add(PACKET_HEADER_SIZE), PLAINTEXT_SIZE));
        }
        let mut out: Vec<u8> = vec![self.version_major, self.version_minor];
        let len = u32_to_be(self.payload.len() as u32);
        push_all(&mut out, len.as_slice());
        push_all(&mut out, self.payload.as_slice());
        pad_zeros(&mut out, PLAINTEXT_SIZE);
        assert(out@ =~= packet_bytes(self.version_major, self.version_minor, self.payload@));
        Ok(out)
    }

    /// Reads a packet: the major version must be the current one and the
    /// stated length must fit in what follows the header.
    pub fn from_bytes(bytes: &[u8]) -> (r: Result<IsotopePacket, ProtocolError>)
        ensures
            match (r, parse_packet(bytes@)) {
                (Ok(p), Ok((major, minor, payload))) => p.version_major == major && p.version_minor == minor
                    && p.payload@ == payload,
                (Err(e), Err(f)) => e == f,
                _ => false,
            },
    {
        if bytes.len() < PACKET_HEADER_SIZE {
            return Err(ProtocolError::TruncatedPacket);
        }
        if bytes[0] != PROTOCOL_VERSION_MAJOR {
            return Err(ProtocolError::UnsupportedVersion(bytes[0], bytes[1]));
        }
        let header = copy_range(bytes, 2, 6);
        let len = u32_from_be(header.as_slice());
        if len as usize > bytes.len() - PACKET_HEADER_SIZE {
            return Err(ProtocolError::TruncatedPacket);
        }
        let payload = copy_range(bytes, 6, 6 + len as usize);
        Ok(IsotopePacket { version_major: bytes[0], version_minor: bytes[1], payload })
    }
}

} // verus!
