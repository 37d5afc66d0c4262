//! Error taxonomy of the vault.
//!
//! Every failure is surfaced to the caller as a typed value; nothing is
//! silently swallowed. Unlock failures distinguish a wrong password from a
//! corrupted vault directory so callers can guide remediation differently.

use vstd::prelude::*;

verus! {

/// Failure of a cryptographic primitive.
#[derive(Debug, Clone, Copy, PartialEq, Eq, Structural)]
pub enum SecurityError {
    /// The cipher failed to encrypt (catastrophic library failure).
    EncryptionError,
    /// The blob was too short to hold a nonce, or its authentication
    /// tag did not verify (wrong key, corruption, or tampering).
    DecryptionError,
    /// The key-derivation routine failed.
    KeyDerivationError,
}

/// Failure of a vault-level operation.
#[derive(Debug, Clone, Copy, PartialEq, Eq, Structural)]
pub enum VaultError {
    /// The store rejected the password on the verification read.
    InvalidPassword,
    /// The vault directory has a store file but no salt file: the vault
    /// is corrupted or unsupported, and its assets cannot be recovered.
    MissingSalt,
    /// An operation that needs the vault was attempted with no session.
    VaultLocked,
    /// No asset or record with the requested id exists.
    NotFound,
    /// The filesystem failed while reading or writing a blob or the store.
    IoError,
    /// Encrypting an asset failed.
    EncryptionError,
    /// Decrypting an asset failed (corrupted blob or foreign key).
    DecryptionError,
}

impl SecurityError {
    /// A short human-readable description.
    pub fn message(&self) -> (r: &'static str)
        ensures
            r@ == self.message_spec(),
    {
        match self {
            SecurityError::EncryptionError => "Encryption failed",
            SecurityError::DecryptionError => "Decryption failed",
            SecurityError::KeyDerivationError => "Key derivation failed",
        }
    }

    /// What `message` returns for each variant.
    pub open spec fn message_spec(self) -> Seq<char> {
        match self {
            SecurityError::EncryptionError => "Encryption failed"@,
            SecurityError::DecryptionError => "Decryption failed"@,
            SecurityError::KeyDerivationError => "Key derivation failed"@,
        }
    }
}

impl VaultError {
    /// A short human-readable description.
    pub fn message(&self) -> (r: &'static str)
        ensures
            r@ == self.message_spec(),
    {
        match self {
            VaultError::InvalidPassword => "Invalid password",
            VaultError::MissingSalt => "Salt file missing",
            VaultError::VaultLocked => "Vault is locked",
            VaultError::NotFound => "Not found",
            VaultError::IoError => "IO error",
            VaultError::EncryptionError => "Encryption failed",
            VaultError::DecryptionError => "Decryption failed",
        }
    }

    /// What `message` returns for each variant.
    pub open spec fn message_spec(self) -> Seq<char> {
        match self {
            VaultError::InvalidPassword => "Invalid password"@,
            VaultError::MissingSalt => "Salt file missing"@,
            VaultError::VaultLocked => "Vault is locked"@,
            VaultError::NotFound => "Not found"@,
            VaultError::IoError => "IO error"@,
            VaultError::EncryptionError => "Encryption failed"@,
            VaultError::DecryptionError => "Decryption failed"@,
        }
    }
}

} // verus!
