//! Runtime configuration and its defaults.

use vstd::prelude::*;
use crate::{WIRE_PACKET_SIZE, PQ_TAG_SIZE, PLAINTEXT_SIZE, HANDSHAKE_TIMEOUT_SEC, READ_TIMEOUT_SEC,
    default_socks_proxy, default_id_file};
use crate::crypto::keys::{ARGON2_MEMORY_KIB, ARGON2_ITERATIONS, ARGON2_PARALLELISM};

verus! {

pub struct NetworkConfig {
    pub socks_proxy: String,
    pub handshake_timeout_sec: u64,
    pub read_timeout_sec: u64,
    pub jitter_min_ms: u64,
    pub jitter_max_ms: u64,
}

pub struct CryptoConfig {
    pub wire_packet_size: usize,
    pub pq_tag_size: usize,
    pub plaintext_size: usize,
    pub default_id_file: String,
    pub argon2_memory_kib: u32,
    pub argon2_iterations: u32,
    pub argon2_parallelism: u32,
}

pub struct UiConfig {
    pub max_messages: usize,
    pub max_system_logs: usize,
}

pub struct Config {
    pub network: NetworkConfig,
    pub crypto: CryptoConfig,
    pub ui: UiConfig,
}

impl Default for Config {
    fn default() -> (c: Self)
        ensures
            c.network.socks_proxy@ == seq!['1', '2', '7', '.', '0', '.', '0', '.', '1', ':', '9', '0', '5', '0'],
            c.network.handshake_timeout_sec == HANDSHAKE_TIMEOUT_SEC,
            c.network.read_timeout_sec == READ_TIMEOUT_SEC,
            c.network.jitter_min_ms == 0,
            c.network.jitter_max_ms == 30,
            c.crypto.wire_packet_size == WIRE_PACKET_SIZE,
            c.crypto.pq_tag_size == PQ_TAG_SIZE,
            c.crypto.plaintext_size == PLAINTEXT_SIZE,
            c.crypto.default_id_file@ == seq!['i', 's', 'o', 't', 'o', 'p', 'e', '.', 'i', 'd'],
            c.crypto.argon2_memory_kib == ARGON2_MEMORY_KIB,
            c.crypto.argon2_iterations == ARGON2_ITERATIONS,
            c.crypto.argon2_parallelism == ARGON2_PARALLELISM,
            c.ui.max_messages == 10_000,
            c.ui.max_system_logs == 1_000,
    {
        Config {
            network: NetworkConfig {
                socks_proxy: default_socks_proxy().to_owned(),
                handshake_timeout_sec: HANDSHAKE_TIMEOUT_SEC,
                read_timeout_sec: READ_TIMEOUT_SEC,
                jitter_min_ms: 0,
                jitter_max_ms: 30,
            },
            crypto: CryptoConfig {
                wire_packet_size: WIRE_PACKET_SIZE,
                pq_tag_size: PQ_TAG_SIZE,
                plaintext_size: PLAINTEXT_SIZE,
                default_id_file: default_id_file().to_owned(),
                argon2_memory_kib: ARGON2_MEMORY_KIB,
                argon2_iterations: ARGON2_ITERATIONS,
                argon2_parallelism: ARGON2_PARALLELISM,
            },
            ui: UiConfig { max_messages: 10_000, max_system_logs: 1_000 },
        }
    }
}

} // verus!
