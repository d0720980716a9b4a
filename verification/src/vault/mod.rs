pub mod block;
pub mod directory;
pub mod filesystem;
pub mod hidden;
