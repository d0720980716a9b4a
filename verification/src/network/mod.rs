pub mod address;
pub mod socks5;
pub mod http;
