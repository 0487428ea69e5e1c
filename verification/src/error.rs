//! Error taxonomy of the vault and gateway.

use vstd::prelude::*;

use crate::crypto::CryptoError;

verus! {

/// Every failure the vault or gateway can surface.  Validation failures
/// carry only a short message, never a storage path or key material.
#[derive(Debug, Clone, PartialEq, Eq)]
pub enum AppError {
    MissingApiKey,
    KeyringUnavailable(String),
    ApiKeyRejected,
    Network(String),
    Config(String),
    Crypto(CryptoError),
    VaultUnavailable(String),
    BiometricFailed,
    BiometricCancelled,
    BiometricUnavailable(String),
}

} // verus!
