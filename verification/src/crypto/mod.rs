pub mod primitives;
pub mod keys;
pub mod hsm;
pub mod ring_sig;
pub mod identity;
pub mod noise;
pub mod kem;
pub mod handshake;
pub mod anomaly;
