//! A local, single-user encrypted content vault: password-based key
//! derivation and vault unlock, per-asset authenticated encryption at rest,
//! and a byte-range-aware decrypted-asset server with a bounded in-memory
//! cache.

mod errors;
pub mod security;
pub mod strutil;
pub mod range;
pub mod cache;
pub mod models;
pub mod database;
pub mod state;

pub use errors::SecurityError;
pub use errors::VaultError;
