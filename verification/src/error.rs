//! Error types shared by the library.
use vstd::prelude::*;

verus! {

/// Errors of the classical crypto layer (ratchet, vault, PIR, tokens).
#[derive(Debug, Clone, PartialEq, Eq)]
pub enum CryptoError {
    InvalidFingerprint(String),
    EncryptFailed(String),
    DecryptFailed(String),
    Serialization(String),
    Ratchet(String),
    KeyPersistence(String),
    Pir(String),
    HardwareError(String),
    Io(String),
    DerivationFailed(String),
}

/// Errors of the snapshot-resistant key custody layer.
#[derive(Debug, Clone, PartialEq, Eq)]
pub enum SnapError {
    InvalidPath,
    StatFs(String),
    NotEphemeral { f_type: u64 },
    InsufficientShards { have: usize },
    Persist(String),
    KeyLength { got: usize },
    Aes(String),
}

/// Errors of the post-quantum layer (hybrid KEM, PQXDH, KEM ratchet).
#[derive(Debug, Clone, PartialEq, Eq)]
pub enum PqError {
    InvalidKeyLength { expected: usize, got: usize },
    InvalidSignature,
    VerificationFailed,
    SigningFailed(String),
    EncapsulationFailed(String),
    DecapsulationFailed(String),
    KeyGenerationFailed(String),
    DerivationFailed(String),
    DecodingError(String),
}

} // verus!
