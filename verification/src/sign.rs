//! Creating B-level XAdES signatures and extending them to T and LT level.
use vstd::prelude::*;

use vstd::string::StringSliceAdditionalSpecFns;

use crate::backend::{
    self, c14n_mode_of, canonical_form, digest_of, first_element_in, rfc3339_of, xml_parse_error, C14nMode,
};
use crate::dsig::{allowed_digest, allowed_signature};
use crate::error::LibError;
use crate::ns;
use crate::template::{
    build_signature_xml, encode_reference_uri, percent_encoded, signature_xml, Draft, DraftView, FileRef,
    FileRefView, UnsignedData, UnsignedView, blob_views, encoded_values_decode,
};
use crate::text::join2;
use crate::xml::str_equal;
use crate::DataObject;

verus! {

// ------------------------------------------------------------- options

/// Options for signature creation.
#[derive(Debug, Clone)]
pub struct SigningOptions {
    /// Defaults to `S0`.
    pub signature_id: Option<String>,
    /// Claimed signing time, in seconds since the Unix epoch (UTC).
    /// Defaults to the current time.
    pub signing_time: Option<i64>,
    /// Digest method for all references and the certificate digest.
    pub digest_uri: String,
    /// SignedInfo canonicalization method.
    pub c14n_uri: String,
}

impl Default for SigningOptions {
    fn default() -> (r: Self)
        ensures
            r.signature_id is None,
            r.signing_time is None,
            r.digest_uri@ == ns::SHA256@,
            r.c14n_uri@ == ns::C14N11@,
    {
        SigningOptions {
            signature_id: None,
            signing_time: None,
            digest_uri: ns::SHA256.to_owned(),
            c14n_uri: ns::C14N11.to_owned(),
        }
    }
}

// --------------------------------------------------------------- specs

/// The digest method that a signature method hashes with.
pub open spec fn signature_hash_uri(method: Seq<char>) -> Option<Seq<char>> {
    if method == ns::RSA_SHA256@ || method == ns::ECDSA_SHA256@ {
        Some(ns::SHA256@)
    } else if method == ns::RSA_SHA384@ || method == ns::ECDSA_SHA384@ {
        Some(ns::SHA384@)
    } else if method == ns::RSA_SHA512@ || method == ns::ECDSA_SHA512@ {
        Some(ns::SHA512@)
    } else {
        None
    }
}

/// The canonical form of the first element `{ns}local` of the document
/// `xml`, or the message of the first step that fails: the parser's error,
/// a missing element, or the canonicalizer's error.
pub open spec fn canonical_element_result(xml: Seq<char>, ns: Seq<char>, local: Seq<char>, mode: C14nMode)
    -> Result<Seq<u8>, Seq<char>>
{
    match xml_parse_error(xml) {
        Some(m) => Err(m),
        None => match first_element_in(xml, ns, local) {
            None => Err("missing element: "@ + local),
            Some(i) => canonical_form(xml, i, mode),
        },
    }
}

/// The canonical form of the first element `{ns}local` of the document
/// `xml`; `None` when a step of `canonical_element_result` fails.
pub open spec fn canonical_element(xml: Seq<char>, ns: Seq<char>, local: Seq<char>, mode: C14nMode) -> Option<Seq<u8>> {
    match canonical_element_result(xml, ns, local, mode) {
        Ok(v) => Some(v),
        Err(_) => None,
    }
}

/// The last six characters of a URI: the name of the hash (`sha256`,
/// `sha384`, `sha512`) for the digest and signature method URIs.
pub open spec fn hash_name(uri: Seq<char>) -> Seq<char> {
    uri.subrange(uri.len() - 6, uri.len() as int)
}

/// Each accepted signature method, and only those, hashes with an accepted
/// digest method, and that digest method names the same hash as the
/// signature method (`...-sha256` with `...#sha256`, and so on).
pub proof fn lemma_signature_hash_is_named_one(method: Seq<char>)
    ensures
        signature_hash_uri(method) is Some <==> allowed_signature(method),
        signature_hash_uri(method) matches Some(h) ==> allowed_digest(h) && method.len() >= 6 && h.len() >= 6
            && hash_name(h) == hash_name(method),
{
    reveal_strlit("http://www.w3.org/2001/04/xmlenc#sha256");
    reveal_strlit("http://www.w3.org/2001/04/xmldsig-more#sha384");
    reveal_strlit("http://www.w3.org/2001/04/xmlenc#sha512");
    reveal_strlit("http://www.w3.org/2001/04/xmldsig-more#rsa-sha256");
    reveal_strlit("http://www.w3.org/2001/04/xmldsig-more#rsa-sha384");
    reveal_strlit("http://www.w3.org/2001/04/xmldsig-more#rsa-sha512");
    reveal_strlit("http://www.w3.org/2001/04/xmldsig-more#ecdsa-sha256");
    reveal_strlit("http://www.w3.org/2001/04/xmldsig-more#ecdsa-sha384");
    reveal_strlit("http://www.w3.org/2001/04/xmldsig-more#ecdsa-sha512");
    if let Some(h) = signature_hash_uri(method) {
        assert(hash_name(h) =~= hash_name(method));
    }
}

pub open spec fn id_or_default(o: Option<String>) -> Seq<char> {
    match o {
        Some(s) => s@,
        None => "S0"@,
    }
}

/// `r` references data object `f`: the percent-encoded name, its media
/// type and the digest of its content.
pub open spec fn references_file(f: DataObject, digest_uri: Seq<char>, r: FileRefView) -> bool {
    &&& r.uri == percent_encoded(f.name.spec_bytes())
    &&& r.mime_type == f.mime_type@
    &&& digest_of(digest_uri, f.content@) == Ok::<Seq<u8>, Seq<char>>(r.digest)
}

/// The digest of every data object's content can be computed.
pub open spec fn file_digests_ok(files: Seq<DataObject>, digest_uri: Seq<char>) -> bool {
    forall|i: int| 0 <= i < files.len() ==> #[trigger] digest_of(digest_uri, files[i].content@) is Ok
}

/// The reference a draft holds for data object `f`.
pub open spec fn file_ref_of(f: DataObject, digest_uri: Seq<char>) -> FileRefView {
    FileRefView {
        uri: percent_encoded(f.name.spec_bytes()),
        mime_type: f.mime_type@,
        digest: match digest_of(digest_uri, f.content@) {
            Ok(d) => d,
            Err(_) => Seq::empty(),
        },
    }
}

/// The draft made from the inputs of `prepare_signature` and the signing
/// time `time`, before anything is signed or added to it.
pub open spec fn initial_draft(
    files: Seq<DataObject>, cert_der: Seq<u8>, method: Seq<char>, options: SigningOptions, time: Seq<char>,
) -> DraftView {
    DraftView {
        id: id_or_default(options.signature_id),
        c14n_uri: options.c14n_uri@,
        sig_method_uri: method,
        digest_uri: options.digest_uri@,
        files: Seq::new(files.len(), |i: int| file_ref_of(files[i], options.digest_uri@)),
        cert_der: cert_der,
        signing_time: time,
        signed_props_digest: None,
        signature_value: None,
        unsigned: None,
    }
}

/// `s` is a signing time the options allow: the one they give, or the
/// RFC 3339 form of some time when they give none.
pub open spec fn signing_time_from(o: Option<i64>, s: Seq<char>) -> bool {
    match o {
        Some(t) => rfc3339_of(t) == Some(s),
        None => exists|t: i64| rfc3339_of(t) == Some(s),
    }
}

/// A draft made from the inputs of `prepare_signature`, before anything
/// is signed or added to it.
pub open spec fn draft_made_from(
    d: DraftView, files: Seq<DataObject>, cert_der: Seq<u8>, method: Seq<char>, options: SigningOptions,
) -> bool {
    &&& d.id == id_or_default(options.signature_id)
    &&& d.c14n_uri == options.c14n_uri@
    &&& d.sig_method_uri == method
    &&& d.digest_uri == options.digest_uri@
    &&& d.cert_der == cert_der
    &&& d.files.len() == files.len()
    &&& forall|i: int| 0 <= i < files.len() ==> #[trigger] references_file(files[i], d.digest_uri, d.files[i])
    &&& signing_time_from(options.signing_time, d.signing_time)
    &&& d.signature_value is None
    &&& d.unsigned is None
}

/// Seal a draft: write its document, put the digest of the canonical
/// SignedProperties into it, write the document again and canonicalize its
/// SignedInfo. The sealed draft, the canonical SignedInfo and its digest under
/// the signature method's hash; `None` when a step fails.
pub open spec fn seal(d0: DraftView) -> Option<(DraftView, Seq<u8>, Seq<u8>)> {
    match digest_of(d0.digest_uri, d0.cert_der) {
        Err(_) => None,
        Ok(cd) => match canonical_element(signature_xml(d0, cd), ns::XADES@, "SignedProperties"@, C14nMode::Inclusive) {
            None => None,
            Some(spc) => match digest_of(d0.digest_uri, spc) {
                Err(_) => None,
                Ok(spd) => {
                    let d1 = DraftView { signed_props_digest: Some(spd), ..d0 };
                    match c14n_mode_of(d0.c14n_uri) {
                        None => None,
                        Some(mode) => match canonical_element(signature_xml(d1, cd), ns::DSIG@, "SignedInfo"@, mode) {
                            None => None,
                            Some(si) => match signature_hash_uri(d0.sig_method_uri) {
                                None => None,
                                Some(h) => match digest_of(h, si) {
                                    Err(_) => None,
                                    Ok(dts) => Some((d1, si, dts)),
                                },
                            },
                        },
                    }
                },
            },
        },
    }
}

/// The draft carries the digest of its own SignedProperties, and
/// `signed_info` is its canonical SignedInfo, `digest_to_sign` the digest of
/// that under the signature method's hash.
pub open spec fn sealed(d: DraftView, signed_info: Seq<u8>, digest_to_sign: Seq<u8>) -> bool {
    seal(DraftView { signed_props_digest: None, ..d }) == Some((d, signed_info, digest_to_sign))
}

/// The draft as it was before the digest of its SignedProperties was put in.
pub open spec fn unsealed(d: DraftView) -> DraftView {
    DraftView { signed_props_digest: None, ..d }
}

/// The draft as it was before the signature value was put in.
pub open spec fn without_signature_value(d: DraftView) -> DraftView {
    DraftView { signature_value: None, ..d }
}

/// The XML of a draft, when the digest of its certificate can be computed.
pub open spec fn draft_xml(d: DraftView) -> Option<Seq<char>> {
    match digest_of(d.digest_uri, d.cert_der) {
        Ok(cd) => Some(signature_xml(d, cd)),
        Err(_) => None,
    }
}

// ------------------------------------------------------------- helpers

/// The digest method a signature method hashes with.
pub fn signature_digest_uri(method: &str) -> (r: Result<&'static str, LibError>)
    ensures
        match signature_hash_uri(method@) {
            Some(h) => r matches Ok(x) && x@ == h,
            None => r matches Err(LibError::Unsupported(m)) && m@ == "sig_method_uri: unsupported signature method: "@ + method@,
        },
{
    if str_equal(method, ns::RSA_SHA256) || str_equal(method, ns::ECDSA_SHA256) {
        Ok(ns::SHA256)
    } else if str_equal(method, ns::RSA_SHA384) || str_equal(method, ns::ECDSA_SHA384) {
        Ok(ns::SHA384)
    } else if str_equal(method, ns::RSA_SHA512) || str_equal(method, ns::ECDSA_SHA512) {
        Ok(ns::SHA512)
    } else {
        Err(LibError::Unsupported(join2("sig_method_uri: unsupported signature method: ", method)))
    }
}

/// Canonicalize the first element `{ns_uri}local` of the document `xml`.
pub fn canonicalize_subtree(xml: &str, ns_uri: &str, local: &str, mode: C14nMode) -> (r: Result<Vec<u8>, LibError>)
    ensures
        match canonical_element_result(xml@, ns_uri@, local@, mode) {
            Ok(v) => r matches Ok(x) && x@ == v,
            Err(m) => r matches Err(LibError::Xml(e)) && e@ == m,
        },
{
    match backend::xml_check(xml) {
        Some(m) => return Err(LibError::Xml(m)),
        None => {},
    }
    let node = match backend::find_first_element(xml, ns_uri, local) {
        Some(n) => n,
        None => return Err(LibError::Xml(join2("missing element: ", local))),
    };
    match backend::canonicalize_node(xml, node, mode) {
        Ok(c) => Ok(c),
        Err(e) => Err(LibError::Xml(e)),
    }
}


// ----------------------------------------------------------- signatures

/// A signature whose SignedInfo is ready to be signed.
pub struct PreparedSignature {
    /// What the signature document is made from.
    pub draft: Draft,
    /// Canonicalized SignedInfo.
    pub signed_info: Vec<u8>,
    /// Digest of `signed_info`.
    pub digest_to_sign: Vec<u8>,
}

/// B-level signature.
pub struct CreatedSignature {
    pub(crate) draft: Draft,
    pub(crate) xml: String,
}

impl PreparedSignature {
    pub open spec fn draft_view(&self) -> DraftView {
        self.draft.view()
    }

    pub open spec fn signed_info_view(&self) -> Seq<u8> {
        self.signed_info@
    }

    pub open spec fn digest_to_sign_view(&self) -> Seq<u8> {
        self.digest_to_sign@
    }

    /// Put the signature value in and write the signature document.
    pub fn finalize(self, signature: &[u8]) -> (r: Result<CreatedSignature, LibError>)
        ensures
            r matches Ok(c) ==> encoded_values_decode(c.draft_view()),
            signature@.len() == 0 ==> (r matches Err(LibError::Signing(m)) && m@ == "empty signature value"@),
            signature@.len() > 0 ==> match draft_xml(DraftView { signature_value: Some(signature@), ..self.draft_view() }) {
                Some(x) => r matches Ok(c) && c.draft_view() == DraftView { signature_value: Some(signature@), ..self.draft_view() }
                    && c.xml_view() == x,
                None => r matches Err(LibError::Crypto(m))
                    && digest_of(self.draft_view().digest_uri, self.draft_view().cert_der) == Err::<Seq<u8>, Seq<char>>(m@),
            },
    {
        if signature.len() == 0 {
            return Err(LibError::Signing("empty signature value".to_owned()));
        }
        let mut draft = self.draft;
        draft.signature_value = Some(crate::text::copy_bytes(signature));
        let xml = build_signature_xml(&draft)?;
        Ok(CreatedSignature { draft, xml })
    }
}

impl CreatedSignature {
    pub closed spec fn draft_view(&self) -> DraftView {
        self.draft.view()
    }

    pub closed spec fn xml_view(&self) -> Seq<char> {
        self.xml@
    }

    /// The DER signer certificate.
    pub fn certificate_der(&self) -> (r: &[u8])
        ensures
            r@ == self.draft_view().cert_der,
    {
        self.draft.cert_der.as_slice()
    }

    /// The signature document.
    pub fn xml(&self) -> (r: &str)
        ensures
            r@ == self.xml_view(),
    {
        self.xml.as_str()
    }

    /// The signature document, taken out.
    pub fn into_xml(self) -> (r: String)
        ensures
            r@ == self.xml_view(),
    {
        self.xml
    }

    /// The canonicalized `ds:SignatureValue` element.
    /// Sent to an RFC 3161 TSA to produce the signature timestamp.
    pub fn timestamp_input(&self) -> (r: Result<Vec<u8>, LibError>)
        ensures
            match canonical_element_result(self.xml_view(), ns::DSIG@, "SignatureValue"@, C14nMode::Inclusive11) {
                Ok(v) => r matches Ok(x) && x@ == v,
                Err(m) => r matches Err(LibError::Xml(e)) && e@ == m,
            },
    {
        canonicalize_subtree(self.xml.as_str(), ns::DSIG, "SignatureValue", C14nMode::Inclusive11)
    }

    /// Add a signature timestamp: a T-level signature.
    pub fn extend_to_t_with(self, timestamp_der: Vec<u8>) -> (r: Result<CreatedSignature, LibError>)
        ensures
            r matches Ok(c) ==> encoded_values_decode(c.draft_view()),
            timestamp_der@.len() == 0 ==> (r matches Err(LibError::Timestamp(m)) && m@ == "empty timestamp token"@),
            timestamp_der@.len() > 0 ==> match draft_xml(DraftView { unsigned: Some(UnsignedView {
                timestamp_der: timestamp_der@,
                timestamp_c14n_uri: ns::C14N11@,
                cert_values: Seq::empty(),
                ocsp_values: Seq::empty(),
            }), ..self.draft_view() }) {
                Some(x) => r matches Ok(c) && c.draft_view() == DraftView { unsigned: Some(UnsignedView {
                    timestamp_der: timestamp_der@,
                    timestamp_c14n_uri: ns::C14N11@,
                    cert_values: Seq::empty(),
                    ocsp_values: Seq::empty(),
                }), ..self.draft_view() } && c.xml_view() == x,
                None => r matches Err(LibError::Crypto(m))
                    && digest_of(self.draft_view().digest_uri, self.draft_view().cert_der) == Err::<Seq<u8>, Seq<char>>(m@),
            },
    {
        let r = self.extend_to_lt_with(timestamp_der, Vec::new(), Vec::new());
        proof {
            assert(blob_views(Seq::<Vec<u8>>::empty()) =~= Seq::<Seq<u8>>::empty());
        }
        r
    }

    /// Add a signature timestamp, OCSP responses and chain certificates:
    /// an LT-level signature.
    pub fn extend_to_lt_with(
        self, timestamp_der: Vec<u8>, ocsp_values: Vec<Vec<u8>>, cert_values: Vec<Vec<u8>>,
    ) -> (r: Result<CreatedSignature, LibError>)
        ensures
            r matches Ok(c) ==> encoded_values_decode(c.draft_view()),
            timestamp_der@.len() == 0 ==> (r matches Err(LibError::Timestamp(m)) && m@ == "empty timestamp token"@),
            timestamp_der@.len() > 0 ==> match draft_xml(DraftView { unsigned: Some(UnsignedView {
                timestamp_der: timestamp_der@,
                timestamp_c14n_uri: ns::C14N11@,
                cert_values: blob_views(cert_values@),
                ocsp_values: blob_views(ocsp_values@),
            }), ..self.draft_view() }) {
                Some(x) => r matches Ok(c) && c.draft_view() == DraftView { unsigned: Some(UnsignedView {
                    timestamp_der: timestamp_der@,
                    timestamp_c14n_uri: ns::C14N11@,
                    cert_values: blob_views(cert_values@),
                    ocsp_values: blob_views(ocsp_values@),
                }), ..self.draft_view() } && c.xml_view() == x,
                None => r matches Err(LibError::Crypto(m))
                    && digest_of(self.draft_view().digest_uri, self.draft_view().cert_der) == Err::<Seq<u8>, Seq<char>>(m@),
            },
    {
        if timestamp_der.len() == 0 {
            return Err(LibError::Timestamp("empty timestamp token".to_owned()));
        }
        let mut draft = self.draft;
        draft.unsigned = Some(UnsignedData {
            timestamp_der,
            timestamp_c14n_uri: ns::C14N11.to_owned(),
            cert_values,
            ocsp_values,
        });
        let xml = build_signature_xml(&draft)?;
        Ok(CreatedSignature { draft, xml })
    }
}


// ------------------------------------------------------------- signing

/// What makes the signature value: the signer's certificate, its signature
/// method and the signing operation itself.
///
/// The four spec functions describe an implementation; one that Verus checks
/// defines them (the defaults, for implementations outside Verus, claim
/// nothing a caller could use: they are closed).
pub trait Signer {
    /// The DER certificate the signer reports.
    closed spec fn certificate(&self) -> Seq<u8> {
        Seq::empty()
    }

    /// The signature method URI the signer reports.
    closed spec fn algorithm(&self) -> Seq<char> {
        Seq::empty()
    }

    /// `signature` is a signature value the signer may give for `data`.
    closed spec fn signs(&self, data: Seq<u8>, signature: Seq<u8>) -> bool {
        true
    }

    /// `e` is an error the signer may give when asked to sign `data`.
    closed spec fn refuses(&self, data: Seq<u8>, e: LibError) -> bool {
        true
    }

    /// DER encoding of the signer's certificate.
    fn certificate_der(&self) -> (r: &[u8])
        ensures
            r@ == self.certificate(),
    ;

    /// The XML-DSig signature method URI.
    fn algorithm_uri(&self) -> (r: &str)
        ensures
            r@ == self.algorithm(),
    ;

    /// Sign the canonical SignedInfo.
    fn sign(&self, data: &[u8]) -> (r: Result<Vec<u8>, LibError>)
        ensures
            r matches Ok(s) ==> self.signs(data@, s@),
            r matches Err(e) ==> self.refuses(data@, e),
    ;
}

fn file_references(files: &[DataObject<'_>], digest_uri: &str) -> (r: Result<Vec<FileRef>, LibError>)
    ensures
        r matches Ok(v) ==> v@.len() == files@.len()
            && forall|i: int| 0 <= i < files@.len() ==> #[trigger] references_file(files@[i], digest_uri@, v@[i].view()),
        (r is Ok) <==> file_digests_ok(files@, digest_uri@),
        r matches Err(e) ==> e is Crypto,
{
    let mut out: Vec<FileRef> = Vec::new();
    let mut k: usize = 0;
    while k < files.len()
        invariant
            k <= files@.len(),
            out@.len() == k,
            forall|i: int| 0 <= i < k ==> #[trigger] references_file(files@[i], digest_uri@, out@[i].view()),
        decreases files.len() - k,
    {
        let f = files[k];
        let digest = match backend::digest(digest_uri, f.content) {
            Ok(d) => d,
            Err(e) => {
                proof {
                    assert(!(digest_of(digest_uri@, files@[k as int].content@) is Ok));
                }
                return Err(LibError::Crypto(e));
            },
        };
        let r = FileRef { uri: encode_reference_uri(f.name), mime_type: f.mime_type.to_owned(), digest };
        assert(references_file(files@[k as int], digest_uri@, r.view()));
        out.push(r);
        k += 1;
    }
    proof {
        assert forall|i: int| 0 <= i < files@.len() implies #[trigger] digest_of(digest_uri@, files@[i].content@) is Ok by {
            assert(references_file(files@[i], digest_uri@, out@[i].view()));
        }
    }
    Ok(out)
}

fn signature_id(o: &Option<String>) -> (r: String)
    ensures
        r@ == id_or_default(*o),
{
    match o {
        Some(s) => s.clone(),
        None => "S0".to_owned(),
    }
}

/// Compute all digests and the SignedInfo.
pub fn prepare_signature(
    files: &[DataObject<'_>], cert_der: &[u8], sig_method_uri: &str, options: &SigningOptions,
) -> (r: Result<PreparedSignature, LibError>)
    ensures
        files@.len() == 0 ==> (r matches Err(LibError::Input(m)) && m@ == "nothing to sign: no data objects"@),
        files@.len() > 0 && !allowed_digest(options.digest_uri@) ==> (r matches Err(LibError::Unsupported(m))
            && m@ == "digest_uri: unsupported digest method: "@ + options.digest_uri@),
        files@.len() > 0 && allowed_digest(options.digest_uri@) && c14n_mode_of(options.c14n_uri@) is None ==> (
            r matches Err(LibError::Unsupported(m)) && m@ == "c14n_uri: unsupported canonicalization method: "@ + options.c14n_uri@),
        files@.len() > 0 && allowed_digest(options.digest_uri@) && c14n_mode_of(options.c14n_uri@) is Some
            && signature_hash_uri(sig_method_uri@) is None ==> (r matches Err(LibError::Unsupported(m))
            && m@ == "sig_method_uri: unsupported signature method: "@ + sig_method_uri@),
        files@.len() > 0 && allowed_digest(options.digest_uri@) && c14n_mode_of(options.c14n_uri@) is Some
            && signature_hash_uri(sig_method_uri@) is Some && !file_digests_ok(files@, options.digest_uri@)
            ==> r matches Err(LibError::Crypto(_)),
        files@.len() > 0 && allowed_digest(options.digest_uri@) && c14n_mode_of(options.c14n_uri@) is Some
            && signature_hash_uri(sig_method_uri@) is Some && file_digests_ok(files@, options.digest_uri@)
            && (options.signing_time matches Some(t) && rfc3339_of(t) is None)
            ==> (r matches Err(LibError::Input(m)) && m@ == "signing_time: out of range"@),
        files@.len() > 0 && allowed_digest(options.digest_uri@) && c14n_mode_of(options.c14n_uri@) is Some
            && signature_hash_uri(sig_method_uri@) is Some && file_digests_ok(files@, options.digest_uri@)
            && (options.signing_time matches Some(t) && rfc3339_of(t) matches Some(time)
            && seal(initial_draft(files@, cert_der@, sig_method_uri@, *options, time)) is Some) ==> r is Ok,
        r matches Ok(p) ==> (signature_hash_uri(sig_method_uri@) matches Some(h)
            && digest_of(h, p.signed_info@) == Ok::<Seq<u8>, Seq<char>>(p.digest_to_sign@)),
        r matches Ok(p) ==> draft_made_from(p.draft_view(), files@, cert_der@, sig_method_uri@, *options)
            && sealed(p.draft_view(), p.signed_info_view(), p.digest_to_sign_view())
            && unsealed(p.draft_view()) == initial_draft(files@, cert_der@, sig_method_uri@, *options, p.draft_view().signing_time),
{
    if files.len() == 0 {
        return Err(LibError::Input("nothing to sign: no data objects".to_owned()));
    }
    if !crate::dsig::is_allowed_digest(options.digest_uri.as_str()) {
        return Err(LibError::Unsupported(join2("digest_uri: unsupported digest method: ", options.digest_uri.as_str())));
    }
    if backend::c14n_mode_from_uri(options.c14n_uri.as_str()).is_none() {
        return Err(LibError::Unsupported(join2("c14n_uri: unsupported canonicalization method: ", options.c14n_uri.as_str())));
    }
    let hash_uri = signature_digest_uri(sig_method_uri)?;
    let refs = file_references(files, options.digest_uri.as_str())?;
    let secs = match options.signing_time {
        Some(t) => t,
        None => backend::now_unix_seconds(),
    };
    let signing_time = match backend::rfc3339_utc(secs) {
        Some(s) => s,
        None => return Err(LibError::Input("signing_time: out of range".to_owned())),
    };
    let mut draft = Draft {
        id: signature_id(&options.signature_id),
        c14n_uri: options.c14n_uri.clone(),
        sig_method_uri: sig_method_uri.to_owned(),
        digest_uri: options.digest_uri.clone(),
        files: refs,
        cert_der: crate::text::copy_bytes(cert_der),
        signing_time,
        signed_props_digest: None,
        signature_value: None,
        unsigned: None,
    };
    let ghost d0 = draft.view();
    proof {
        let init = initial_draft(files@, cert_der@, sig_method_uri@, *options, signing_time@);
        assert forall|i: int| 0 <= i < files@.len() implies #[trigger] d0.files[i] == init.files[i] by {
            assert(references_file(files@[i], options.digest_uri@, refs@[i].view()));
        }
        assert(d0.files =~= init.files);
        assert(d0 == init);
    }
    let xml = build_signature_xml(&draft)?;
    let sp_c14n = canonicalize_subtree(xml.as_str(), ns::XADES, "SignedProperties", C14nMode::Inclusive)?;
    let spd = match backend::digest(draft.digest_uri.as_str(), sp_c14n.as_slice()) {
        Ok(d) => d,
        Err(e) => return Err(LibError::Crypto(e)),
    };
    draft.signed_props_digest = Some(spd);
    assert(d0 == DraftView { signed_props_digest: None, ..draft.view() });
    let xml = build_signature_xml(&draft)?;
    let mode = match backend::c14n_mode_from_uri(draft.c14n_uri.as_str()) {
        Some(m) => m,
        None => return Err(LibError::Unsupported(join2("canonicalization: ", draft.c14n_uri.as_str()))),
    };
    let signed_info = canonicalize_subtree(xml.as_str(), ns::DSIG, "SignedInfo", mode)?;
    let digest_to_sign = match backend::digest(hash_uri, signed_info.as_slice()) {
        Ok(d) => d,
        Err(e) => return Err(LibError::Crypto(e)),
    };
    let p = PreparedSignature { draft, signed_info, digest_to_sign };
    assert(signing_time_from(options.signing_time, p.draft_view().signing_time));
    Ok(p)
}

/// Create a B-level signature.
pub fn sign(files: &[DataObject<'_>], signer: &dyn Signer, options: &SigningOptions) -> (r: Result<CreatedSignature, LibError>)
    ensures
        files@.len() == 0 ==> (r matches Err(LibError::Input(m)) && m@ == "nothing to sign: no data objects"@),
        files@.len() > 0 && !allowed_digest(options.digest_uri@) ==> (r matches Err(LibError::Unsupported(m))
            && m@ == "digest_uri: unsupported digest method: "@ + options.digest_uri@),
        files@.len() > 0 && allowed_digest(options.digest_uri@) && c14n_mode_of(options.c14n_uri@) is None ==> (
            r matches Err(LibError::Unsupported(m)) && m@ == "c14n_uri: unsupported canonicalization method: "@ + options.c14n_uri@),
        files@.len() > 0 && allowed_digest(options.digest_uri@) && c14n_mode_of(options.c14n_uri@) is Some
            && signature_hash_uri(signer.algorithm()) is None ==> (r matches Err(LibError::Unsupported(m))
            && m@ == "sig_method_uri: unsupported signature method: "@ + signer.algorithm()),
        files@.len() > 0 && allowed_digest(options.digest_uri@) && c14n_mode_of(options.c14n_uri@) is Some
            && signature_hash_uri(signer.algorithm()) is Some && !file_digests_ok(files@, options.digest_uri@)
            ==> r matches Err(LibError::Crypto(_)),
        files@.len() > 0 && allowed_digest(options.digest_uri@) && c14n_mode_of(options.c14n_uri@) is Some
            && signature_hash_uri(signer.algorithm()) is Some && file_digests_ok(files@, options.digest_uri@)
            && (options.signing_time matches Some(t) && rfc3339_of(t) is None)
            ==> (r matches Err(LibError::Input(m)) && m@ == "signing_time: out of range"@),
        files@.len() > 0 && allowed_digest(options.digest_uri@) && c14n_mode_of(options.c14n_uri@) is Some
            && signature_hash_uri(signer.algorithm()) is Some && file_digests_ok(files@, options.digest_uri@)
            ==> (options.signing_time matches Some(t) ==> (rfc3339_of(t) matches Some(time)
            ==> (seal(initial_draft(files@, signer.certificate(), signer.algorithm(), *options, time)) matches Some(sd)
            ==> signer_outcome(signer, sd.1, r)))),
        r matches Ok(c) ==> {
            &&& c.draft_view().signature_value matches Some(sv)
            &&& draft_xml(c.draft_view()) == Some(c.xml_view())
            &&& draft_made_from(without_signature_value(c.draft_view()), files@, signer.certificate(), signer.algorithm(), *options)
            &&& exists|si: Seq<u8>, dts: Seq<u8>| #[trigger] sealed(without_signature_value(c.draft_view()), si, dts)
                && sv.len() > 0 && signer.signs(si, sv)
        },
{
    let cert = signer.certificate_der();
    let method = signer.algorithm_uri();
    let prepared = prepare_signature(files, cert, method, options)?;
    let ghost d = prepared.draft_view();
    let ghost si = prepared.signed_info_view();
    let ghost dts = prepared.digest_to_sign_view();
    proof {
        assert(unsealed(d) == DraftView { signed_props_digest: None, ..d });
        if options.signing_time is Some {
            assert(rfc3339_of(options.signing_time.unwrap()) == Some(d.signing_time));
            assert(seal(initial_draft(files@, signer.certificate(), signer.algorithm(), *options, d.signing_time))
                == Some((d, si, dts)));
        }
    }
    let signature = match signer.sign(prepared.signed_info.as_slice()) {
        Ok(s) => s,
        Err(e) => {
            proof {
                assert(signer_outcome(signer, si, Err(e)));
            }
            return Err(e);
        },
    };
    let r = prepared.finalize(signature.as_slice());
    proof {
        if r is Ok {
            let c = r.unwrap();
            assert(without_signature_value(c.draft_view()) == d);
            assert(sealed(d, si, dts));
            assert(signer_outcome(signer, si, r));
        } else {
            assert(draft_xml(DraftView { signature_value: Some(signature@), ..d }) is Some);
            if signature@.len() == 0 {
                assert(signature@ =~= Seq::<u8>::empty());
            }
            assert(signer_outcome(signer, si, r));
        }
    }
    r
}

/// How `sign` ends once the canonical SignedInfo `signed_info` is ready:
/// with the signer's refusal, with the refusal of an empty signature value
/// the signer gave, or with a signature document.
pub open spec fn signer_outcome<S: Signer + ?Sized>(signer: &S, signed_info: Seq<u8>, r: Result<CreatedSignature, LibError>) -> bool {
    match r {
        Ok(c) => c.draft_view().signature_value matches Some(sv) && sv.len() > 0 && signer.signs(signed_info, sv),
        Err(e) => signer.refuses(signed_info, e)
            || (e matches LibError::Signing(m) && m@ == "empty signature value"@ && signer.signs(signed_info, Seq::empty())),
    }
}

} // verus!
