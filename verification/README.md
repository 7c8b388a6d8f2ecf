# xades

Creation of XAdES (B, T and LT level) XML signatures and the core XML-DSig
checks of a signature: references, data-object digests, the signer
certificate and the signature value. The library is written in Verus; its
behaviour is stated in `requires`/`ensures` contracts and proved.

## Layout

- `src/` — the verified library
  - `sign.rs` — signing options, `prepare_signature`, `sign`, and the
    signature objects with their extension to T and LT level
  - `template.rs` — the signature document: its parts and their XML form,
    reference URI encoding
  - `dsig.rs` — `verify_core`, the core checks of a signature, and the law
    that a signature with no reported problem is verified
  - `lt.rs` — what extension to LT level decides: the issuer certificate and
    whether an OCSP response confirms the signer certificate
  - `xml.rs` — a model of the parsed document and lookups over it
  - `ids.rs` — the map from `Id` attribute values to elements
  - `text.rs` — string helpers
  - `backend.rs` — the trusted calls into the parser, canonicalizer, digest,
    signature, encoding, time and certificate crates
- `tests/` — tests run against the compiled library
- `app/` — plain Rust around the library: the timestamp and OCSP network
  requests, and an error type implementing `std::error::Error`
