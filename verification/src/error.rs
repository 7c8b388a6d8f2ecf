//! The library's error type.
use vstd::prelude::*;

verus! {

/// What went wrong, with a human-readable detail.
#[derive(Debug, Clone)]
pub enum LibError {
    /// Invalid input.
    Input(String),
    /// XML is not well-formed or lacks a required element/attribute.
    Xml(String),
    /// A certificate could not be parsed.
    Certificate(String),
    /// Timestamp request or verification failed.
    Timestamp(String),
    /// OCSP request or verification failed.
    Ocsp(String),
    /// Cryptographic operation failed.
    Crypto(String),
    /// Signature creation failed.
    Signing(String),
    /// Algorithm or feature not supported by the crate.
    Unsupported(String),
}

pub type Result<T> = core::result::Result<T, LibError>;

} // verus!
