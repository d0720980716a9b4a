pub mod commands;
pub mod session;
pub mod transfers;
pub mod connect;
