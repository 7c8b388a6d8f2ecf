//! Namespace and algorithm identifiers used by XAdES signatures.
use vstd::prelude::*;

verus! {

pub const DSIG: &'static str = "http://www.w3.org/2000/09/xmldsig#";

pub const XADES: &'static str = "http://uri.etsi.org/01903/v1.3.2#";

pub const TYPE_SIGNED_PROPERTIES: &'static str = "http://uri.etsi.org/01903#SignedProperties";

/// Canonical XML 1.0 (omits comments).
pub const C14N: &'static str = "http://www.w3.org/TR/2001/REC-xml-c14n-20010315";

/// Canonical XML 1.1 (omits comments).
pub const C14N11: &'static str = "http://www.w3.org/2006/12/xml-c14n11";

// BDOC also allows SHA-1 and SHA-224, but we consider them deprecated.
pub const SHA256: &'static str = "http://www.w3.org/2001/04/xmlenc#sha256";

pub const SHA384: &'static str = "http://www.w3.org/2001/04/xmldsig-more#sha384";

pub const SHA512: &'static str = "http://www.w3.org/2001/04/xmlenc#sha512";

// BDOC also allows RSA with SHA-1 and SHA-224, but we consider them deprecated.
pub const RSA_SHA256: &'static str = "http://www.w3.org/2001/04/xmldsig-more#rsa-sha256";

pub const RSA_SHA384: &'static str = "http://www.w3.org/2001/04/xmldsig-more#rsa-sha384";

pub const RSA_SHA512: &'static str = "http://www.w3.org/2001/04/xmldsig-more#rsa-sha512";

// BDOC also allows ECDSA with SHA-1 and SHA-224, but we consider them deprecated.
pub const ECDSA_SHA256: &'static str = "http://www.w3.org/2001/04/xmldsig-more#ecdsa-sha256";

pub const ECDSA_SHA384: &'static str = "http://www.w3.org/2001/04/xmldsig-more#ecdsa-sha384";

pub const ECDSA_SHA512: &'static str = "http://www.w3.org/2001/04/xmldsig-more#ecdsa-sha512";

} // verus!
