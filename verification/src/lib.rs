//! XAdES signature creation and core XML-DSig validation.
use vstd::prelude::*;

pub mod backend;
pub mod dsig;
pub mod error;
pub mod ids;
pub mod lt;
pub mod ns;
pub mod sign;
pub mod template;
pub mod text;
pub mod xml;

pub use dsig::verify_core;
pub use error::LibError;
pub use lt::LtConfig;
pub use sign::{prepare_signature, sign, CreatedSignature, PreparedSignature, Signer, SigningOptions};

verus! {

/// A data object covered by a signature.
#[derive(Debug, Clone, Copy)]
pub struct DataObject<'a> {
    /// File name as stored in the container.
    pub name: &'a str,
    /// Media type, e.g. `application/pdf`.
    pub mime_type: &'a str,
    /// Raw content.
    pub content: &'a [u8],
}

} // verus!
