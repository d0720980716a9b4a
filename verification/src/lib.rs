//! ISOTOPE: a metadata-resistant, post-quantum secure messaging library.
//!
//! The verified core holds the wire formats, key schedules, vault layout,
//! routing rules and parsers; I/O lives in the application crate.

pub mod bytes;
pub mod client;
pub mod config;
pub mod crypto;
pub mod error;
pub mod network;
pub mod protocol;
pub mod server;
pub mod text;
pub mod vault;

use vstd::prelude::*;

verus! {

/// Size of every packet on the wire after Noise encryption.
pub const WIRE_PACKET_SIZE: usize = 4096;
/// Size of the post-quantum authentication tag (also the padding used before the PQ upgrade).
pub const PQ_TAG_SIZE: usize = 16;
/// Size of a padded plaintext packet.
pub const PLAINTEXT_SIZE: usize = 4064;
/// Seconds allowed for each handshake message.
pub const HANDSHAKE_TIMEOUT_SEC: u64 = 30;
/// Seconds allowed between two packets of an established session.
pub const READ_TIMEOUT_SEC: u64 = 300;

/// Default SOCKS5 proxy (a local Tor daemon).
pub fn default_socks_proxy() -> (s: &'static str)
    ensures
        s@ == seq!['1', '2', '7', '.', '0', '.', '0', '.', '1', ':', '9', '0', '5', '0'],
{
    proof { reveal_strlit("127.0.0.1:9050"); }
    "127.0.0.1:9050"
}

/// Default identity file.
pub fn default_id_file() -> (s: &'static str)
    ensures
        s@ == seq!['i', 's', 'o', 't', 'o', 'p', 'e', '.', 'i', 'd'],
{
    proof { reveal_strlit("isotope.id"); }
    "isotope.id"
}

} // verus!
