//! Error kinds of the library.

use vstd::prelude::*;
use crate::crypto::primitives::{KdfError, HexError};

verus! {

/// Failures of the cryptographic layer.
#[derive(Debug, Clone, PartialEq, Eq)]
pub enum CryptoError {
    NoiseHandshakeFailed(String),
    PqExchangeFailed,
    PqDecryptionFailed,
    IdentityNotFound(String),
    InvalidIdentityPassword,
    IdentitySlotOverflow,
    KeyDerivationFailed(KdfError),
    SessionLockPoisoned,
    KeyGenerationFailed,
    IdentityFileTooShort,
    InvalidKeyEncoding(HexError),
    PqEncryptionFailed,
    PacketTooShort,
    PacketSizeMismatch(usize),
    /// The handshake did not reveal the peer's static key.
    MissingRemoteKey,
    /// The peer's static key is not the one expected.
    FingerprintMismatch,
}

/// Failures of the network layer.
#[derive(Debug, Clone, PartialEq, Eq)]
pub enum NetworkError {
    ProxyConnectionFailed(String),
    Socks5AuthRejected,
    Socks5Error(u8),
    UnknownAtyp(u8),
    EmptyProxyChain,
    InvalidOnionAddress(String),
    HttpHeaderError(&'static str),
    InvalidContentLength,
}

/// Failures of the packet protocol.
#[derive(Debug, Clone, PartialEq, Eq)]
pub enum ProtocolError {
    PayloadTooLarge(usize, usize),
    PacketOverflow(usize, usize),
    DeserializationFailed(String),
    UnsupportedVersion(u8, u8),
    /// Fewer bytes than the packet header, or than the length it states.
    TruncatedPacket,
}

/// Why a new vault password was refused.
#[derive(Debug, Clone, Copy, PartialEq, Eq)]
pub enum PasswordWeakness {
    /// Fewer than 8 characters.
    TooShort,
    /// No uppercase letter.
    NoUppercase,
    /// No numeric character.
    NoNumber,
}

/// Failures of the encrypted vault.
#[derive(Debug, Clone, PartialEq, Eq)]
pub enum VaultError {
    WeakPassword(PasswordWeakness),
    CorruptedVault,
    BlockOverflow(usize, usize),
    BlockOutOfBounds(u64),
    FileNotFound(String),
    DirectoryOverflow,
    InsufficientBlocks(u64),
    /// The hidden volume has no room left for the file.
    HiddenVolumeFull,
    AlreadyExists,
    DecryptionFailed,
    KeyDerivationFailed(KdfError),
}

} // verus!
