use vstd::prelude::*;

verus! {

/// `std::io::Error`, carried opaque in `AppError::IOError`.
#[verifier::external_type_specification]
#[verifier::external_body]
pub struct ExIoError(std::io::Error);

/// `serde_json::Error`, carried opaque in the JSON variants of `AppError`.
#[verifier::external_type_specification]
#[verifier::external_body]
pub struct ExJsonError(serde_json::Error);

/// The ways loading or saving a vault can fail.
#[derive(Debug)]
pub enum AppError {
    /// I/O error while accessing a file
    IOError(std::io::Error),
    /// failed to serialize vault to JSON
    SerializeError(serde_json::Error),
    /// failed to deserialize vault from JSON
    DeserializeError(serde_json::Error),
    /// vault not found
    VaultNotFound(String),
    /// permission denied (likely wrong password or corrupt data)
    PermissionDenied(String),
}

} // verus!
