pub mod state;
pub mod router;
pub mod admin;
