//! Calls into the XML, canonicalization, encoding and crypto crates.
//!
//! Every item here is trusted: Verus believes its contract without reading
//! its body. Each doc comment names the function called and what the
//! contract claims of it.
use vstd::prelude::*;

use base64::Engine;
use x509_cert::der::{Decode, Encode};
use bergshamra_xml::uppsala;

use crate::ids::{distinct_ids, entries_map, IdEntry};

verus! {

/// An attribute as the parser reports it: local name and normalized value.
#[derive(Debug, Clone)]
pub struct XmlAttr {
    pub name: String,
    pub value: String,
}

/// What the model keeps of one parsed node.
#[derive(Debug, Clone)]
pub enum XmlNodeKind {
    /// An element: namespace URI (if any), local name and attributes in document order.
    Element { ns_uri: Option<String>, local: String, attrs: Vec<XmlAttr> },
    /// A text or CDATA node.
    Text { content: String },
    /// The document node, comments and processing instructions.
    Other,
}

pub enum XmlNodeView {
    Element { ns_uri: Option<Seq<char>>, local: Seq<char>, attrs: Seq<(Seq<char>, Seq<char>)> },
    Text { content: Seq<char> },
    Other,
}

pub open spec fn opt_text(o: Option<String>) -> Option<Seq<char>> {
    match o {
        Some(s) => Some(s@),
        None => None,
    }
}

impl XmlNodeKind {
    pub open spec fn view(self) -> XmlNodeView {
        match self {
            XmlNodeKind::Element { ns_uri, local, attrs } => XmlNodeView::Element {
                ns_uri: opt_text(ns_uri),
                local: local@,
                attrs: attrs@.map_values(|a: XmlAttr| (a.name@, a.value@)),
            },
            XmlNodeKind::Text { content } => XmlNodeView::Text { content: content@ },
            XmlNodeKind::Other => XmlNodeView::Other,
        }
    }
}

/// The message of the error `uppsala::parse` reports for `text`, `None`
/// when it parses.
pub uninterp spec fn xml_parse_error(text: Seq<char>) -> Option<Seq<char>>;

/// Calls `uppsala::parse` and keeps only its error message.
/// Claimed: the result is `xml_parse_error` of the text.
#[verifier::external_body]
pub fn xml_check(text: &str) -> (r: Option<String>)
    ensures
        opt_text(r) == xml_parse_error(text@),
{
    uppsala::parse(text).err().map(|e| e.to_string())
}

/// The arena indices that `Document::descendants` lists for node `id` of
/// the document parsed from `text`.
pub uninterp spec fn descendants_in(text: Seq<char>, id: usize) -> Seq<usize>;

/// Calls `Document::descendants` on the document `uppsala::parse` makes of
/// `text`, turning each `NodeId` into its arena index.
/// Claimed: the result is `descendants_in` of the arguments.
#[verifier::external_body]
pub fn document_descendants(text: &str, id: usize) -> (r: Vec<usize>)
    requires
        xml_parse_error(text@) is None,
    ensures
        r@ == descendants_in(text@, id),
{
    match uppsala::parse(text) {
        Ok(doc) => doc.descendants(uppsala::NodeId::new(id)).into_iter().map(|n| n.index()).collect(),
        Err(_) => Vec::new(),
    }
}

/// The arena indices that `Document::children` lists for node `id` of the
/// document parsed from `text`.
pub uninterp spec fn children_in(text: Seq<char>, id: usize) -> Seq<usize>;

/// Calls `Document::children` on the document `uppsala::parse` makes of
/// `text`, turning each `NodeId` into its arena index.
/// Claimed: the result is `children_in` of the arguments.
#[verifier::external_body]
pub fn document_children(text: &str, id: usize) -> (r: Vec<usize>)
    requires
        xml_parse_error(text@) is None,
    ensures
        r@ == children_in(text@, id),
{
    match uppsala::parse(text) {
        Ok(doc) => doc.children(uppsala::NodeId::new(id)).into_iter().map(|n| n.index()).collect(),
        Err(_) => Vec::new(),
    }
}

/// What `Document::node_kind` reports of node `id` of the document parsed
/// from `text`, as far as the model keeps it.
pub uninterp spec fn node_in(text: Seq<char>, id: usize) -> XmlNodeView;

/// Calls `Document::node_kind` on the document `uppsala::parse` makes of
/// `text` and copies out the node's name, attributes or text.
/// Claimed: the result is `node_in` of the arguments.
#[verifier::external_body]
pub fn document_node(text: &str, id: usize) -> (r: XmlNodeKind)
    requires
        xml_parse_error(text@) is None,
    ensures
        r.view() == node_in(text@, id),
{
    let Ok(doc) = uppsala::parse(text) else { return XmlNodeKind::Other };
    match doc.node_kind(uppsala::NodeId::new(id)) {
        Some(uppsala::NodeKind::Element(e)) => XmlNodeKind::Element {
            ns_uri: e.name.namespace_uri.as_ref().map(|s| s.to_string()),
            local: e.name.local_name.to_string(),
            attrs: e.attributes.iter().map(|a| XmlAttr {
                name: a.name.local_name.to_string(),
                value: a.value.to_string(),
            }).collect(),
        },
        Some(uppsala::NodeKind::Text(t)) => XmlNodeKind::Text { content: t.to_string() },
        Some(uppsala::NodeKind::CData(t)) => XmlNodeKind::Text { content: t.to_string() },
        _ => XmlNodeKind::Other,
    }
}

/// The text of node `id` and its descendants, depth first, that
/// `Document::text_content_deep` collects from the document parsed from
/// `text`.
pub uninterp spec fn deep_text_in(text: Seq<char>, id: usize) -> Seq<char>;

/// Calls `Document::text_content_deep` on the document `uppsala::parse`
/// makes of `text`. Claimed: the result is `deep_text_in` of the arguments.
#[verifier::external_body]
pub fn document_text(text: &str, id: usize) -> (r: String)
    requires
        xml_parse_error(text@) is None,
    ensures
        r@ == deep_text_in(text@, id),
{
    match uppsala::parse(text) {
        Ok(doc) => doc.text_content_deep(uppsala::NodeId::new(id)),
        Err(_) => String::new(),
    }
}

/// The map from identifier values to arena indices that
/// `XmlDocument::build_id_map` builds for the document parsed from `text`,
/// or the message of its error.
pub uninterp spec fn id_map_in(text: Seq<char>) -> core::result::Result<Map<Seq<char>, usize>, Seq<char>>;

/// Calls `XmlDocument::build_id_map` of `bergshamra_xml` (with the default
/// identifier attributes only) on `text`, turning each `NodeId` into its
/// arena index; an error is handed back as its message. The map is walked
/// in an order nothing fixes. Claimed: the entries have distinct values
/// and, as a map, are `id_map_in` of the text; an error is its message.
#[verifier::external_body]
pub fn document_id_entries(text: &str) -> (r: core::result::Result<Vec<IdEntry>, String>)
    requires
        xml_parse_error(text@) is None,
    ensures
        match r {
            Ok(v) => distinct_ids(v@) && id_map_in(text@) == Ok::<Map<Seq<char>, usize>, Seq<char>>(entries_map(v@)),
            Err(e) => id_map_in(text@) == Err::<Map<Seq<char>, usize>, Seq<char>>(e@),
        },
{
    let xdoc = bergshamra_xml::XmlDocument::parse(text.to_owned()).map_err(|e| e.to_string())?;
    let doc = xdoc.parse_doc().map_err(|e| e.to_string())?;
    let map = xdoc.build_id_map(&doc).map_err(|e| e.to_string())?;
    Ok(map.into_iter().map(|(k, v)| IdEntry { id: k, node: v.index() }).collect())
}

/// The arena index of the first element `{ns}local` (an element in that
/// namespace) of the document parsed from `text`, in document order.
pub uninterp spec fn first_element_in(text: Seq<char>, ns: Seq<char>, local: Seq<char>) -> Option<usize>;

/// Calls `XmlDocument::find_element` of `bergshamra_xml` on the document
/// `uppsala::parse` makes of `text`, turning the `NodeId` into its arena
/// index. Claimed: the result is `first_element_in` of the arguments.
#[verifier::external_body]
pub fn find_first_element(text: &str, ns: &str, local: &str) -> (r: Option<usize>)
    requires
        xml_parse_error(text@) is None,
    ensures
        r == first_element_in(text@, ns@, local@),
{
    let doc = uppsala::parse(text).ok()?;
    bergshamra_xml::XmlDocument::find_element(&doc, ns, local).map(|n| n.index())
}

} // verus!

verus! {

/// A character of the Unicode `White_Space` property, what `str::trim`
/// removes: U+0009 to U+000D, U+0020, U+0085, U+00A0, U+1680, U+2000 to
/// U+200A, U+2028, U+2029, U+202F, U+205F and U+3000.
pub open spec fn is_white_space(c: char) -> bool {
    let u = c as u32;
    ||| 0x9 <= u <= 0xd
    ||| u == 0x20 || u == 0x85 || u == 0xa0 || u == 0x1680
    ||| 0x2000 <= u <= 0x200a
    ||| u == 0x2028 || u == 0x2029 || u == 0x202f || u == 0x205f || u == 0x3000
}

/// `s` without its leading white space.
pub open spec fn trim_start(s: Seq<char>) -> Seq<char>
    decreases s.len(),
{
    if s.len() > 0 && is_white_space(s[0]) {
        trim_start(s.drop_first())
    } else {
        s
    }
}

/// `s` without its trailing white space.
pub open spec fn trim_end(s: Seq<char>) -> Seq<char>
    decreases s.len(),
{
    if s.len() > 0 && is_white_space(s.last()) {
        trim_end(s.drop_last())
    } else {
        s
    }
}

/// The result of `str::trim`: the text without leading and trailing
/// Unicode white space.
pub open spec fn trimmed(s: Seq<char>) -> Seq<char> {
    trim_end(trim_start(s))
}

/// Calls `str::trim` and copies the result.
/// Claimed: the result is `trimmed` of the argument, as `str::trim`'s
/// documentation defines it (white space is the Unicode `White_Space`
/// property).
#[verifier::external_body]
pub fn trim_whitespace(s: &str) -> (r: String)
    ensures
        r@ == trimmed(s@),
{
    s.trim().to_owned()
}

/// Calls `String::push`.
/// Claimed: the character is appended.
#[verifier::external_body]
pub fn push_char(s: &mut String, c: char)
    ensures
        final(s)@ == old(s)@.push(c),
{
    s.push(c)
}

} // verus!

verus! {

/// A canonicalization algorithm the canonicalizer supports.
#[derive(Debug, Clone, Copy, PartialEq, Eq, Structural)]
pub enum C14nMode {
    Inclusive,
    InclusiveWithComments,
    Inclusive11,
    Inclusive11WithComments,
    Exclusive,
    ExclusiveWithComments,
}

/// The canonicalization algorithm that an algorithm URI names, if any.
pub open spec fn c14n_mode_of(uri: Seq<char>) -> Option<C14nMode> {
    if uri == "http://www.w3.org/TR/2001/REC-xml-c14n-20010315"@ {
        Some(C14nMode::Inclusive)
    } else if uri == "http://www.w3.org/TR/2001/REC-xml-c14n-20010315#WithComments"@ {
        Some(C14nMode::InclusiveWithComments)
    } else if uri == "http://www.w3.org/2006/12/xml-c14n11"@ {
        Some(C14nMode::Inclusive11)
    } else if uri == "http://www.w3.org/2006/12/xml-c14n11#WithComments"@ {
        Some(C14nMode::Inclusive11WithComments)
    } else if uri == "http://www.w3.org/2001/10/xml-exc-c14n#"@ {
        Some(C14nMode::Exclusive)
    } else if uri == "http://www.w3.org/2001/10/xml-exc-c14n#WithComments"@ {
        Some(C14nMode::ExclusiveWithComments)
    } else {
        None
    }
}

/// Calls `bergshamra_c14n::C14nMode::from_uri`.
/// Claimed: it maps exactly the six canonicalization URIs of `c14n_mode_of`
/// to their modes and every other URI to `None` (a `match` in its source).
#[verifier::external_body]
pub fn c14n_mode_from_uri(uri: &str) -> (r: Option<C14nMode>)
    ensures
        r == c14n_mode_of(uri@),
{
    match bergshamra_c14n::C14nMode::from_uri(uri) {
        Some(bergshamra_c14n::C14nMode::Inclusive) => Some(C14nMode::Inclusive),
        Some(bergshamra_c14n::C14nMode::InclusiveWithComments) => Some(C14nMode::InclusiveWithComments),
        Some(bergshamra_c14n::C14nMode::Inclusive11) => Some(C14nMode::Inclusive11),
        Some(bergshamra_c14n::C14nMode::Inclusive11WithComments) => Some(C14nMode::Inclusive11WithComments),
        Some(bergshamra_c14n::C14nMode::Exclusive) => Some(C14nMode::Exclusive),
        Some(bergshamra_c14n::C14nMode::ExclusiveWithComments) => Some(C14nMode::ExclusiveWithComments),
        None => None,
    }
}

pub open spec fn bytes_or_text_view(r: core::result::Result<Vec<u8>, String>) -> core::result::Result<Seq<u8>, Seq<char>> {
    match r {
        Ok(v) => Ok(v@),
        Err(e) => Err(e@),
    }
}

/// The canonical form of the subtree rooted at arena node `node` of the
/// document `xml`, comments omitted, or the message of the error met.
pub uninterp spec fn canonical_form(xml: Seq<char>, node: usize, mode: C14nMode) -> core::result::Result<Seq<u8>, Seq<char>>;

/// Calls `bergshamra_c14n::canonicalize_doc` on the subtree of node `node`
/// without comments. To build its arguments it parses `xml` again with
/// `uppsala::parse` and selects the subtree with
/// `NodeSet::tree_without_comments`; an error of either call is handed back
/// as its message. Claimed: the result is `canonical_form` of the arguments.
#[verifier::external_body]
pub fn canonicalize_node(xml: &str, node: usize, mode: C14nMode) -> (r: core::result::Result<Vec<u8>, String>)
    ensures
        bytes_or_text_view(r) == canonical_form(xml@, node, mode),
{
    let m = match mode {
        C14nMode::Inclusive => bergshamra_c14n::C14nMode::Inclusive,
        C14nMode::InclusiveWithComments => bergshamra_c14n::C14nMode::InclusiveWithComments,
        C14nMode::Inclusive11 => bergshamra_c14n::C14nMode::Inclusive11,
        C14nMode::Inclusive11WithComments => bergshamra_c14n::C14nMode::Inclusive11WithComments,
        C14nMode::Exclusive => bergshamra_c14n::C14nMode::Exclusive,
        C14nMode::ExclusiveWithComments => bergshamra_c14n::C14nMode::ExclusiveWithComments,
    };
    let doc = uppsala::parse(xml).map_err(|e| e.to_string())?;
    let set = bergshamra_xml::NodeSet::tree_without_comments(uppsala::NodeId::new(node), &doc);
    let empty: &[&str] = &[];
    bergshamra_c14n::canonicalize_doc(&doc, m, Some(&set), empty).map_err(|e| e.to_string())
}

/// The digest of `data` under the digest algorithm URI `uri`, or the
/// message of the error the digest function reports.
pub uninterp spec fn digest_of(uri: Seq<char>, data: Seq<u8>) -> core::result::Result<Seq<u8>, Seq<char>>;

/// Calls `bergshamra_crypto::digest::digest`; an error is handed back as its
/// message. Claimed: the result is `digest_of` of the arguments.
#[verifier::external_body]
pub fn digest(uri: &str, data: &[u8]) -> (r: core::result::Result<Vec<u8>, String>)
    ensures
        bytes_or_text_view(r) == digest_of(uri@, data@),
{
    bergshamra_crypto::digest::digest(uri, data).map_err(|e| e.to_string())
}

/// Standard base64 (RFC 4648, padded) decoding of `text`, or the message of
/// the decoding error.
pub uninterp spec fn base64_decoded(text: Seq<char>) -> core::result::Result<Seq<u8>, Seq<char>>;

/// Calls `STANDARD.decode` of the `base64` crate; an error is handed back as
/// its message. Claimed: the result is `base64_decoded` of the text.
#[verifier::external_body]
pub fn base64_decode(text: &str) -> (r: core::result::Result<Vec<u8>, String>)
    ensures
        bytes_or_text_view(r) == base64_decoded(text@),
{
    base64::engine::general_purpose::STANDARD.decode(text).map_err(|e| e.to_string())
}

/// Standard base64 (RFC 4648, padded) encoding of `data`.
pub uninterp spec fn base64_text(data: Seq<u8>) -> Seq<char>;

/// The text `t` decodes, as standard base64, to `b`.
pub open spec fn decodes_to(t: String, b: Seq<u8>) -> bool {
    base64_decoded(t@) == Ok::<Seq<u8>, Seq<char>>(b)
}

/// Calls `STANDARD.encode` of the `base64` crate.
/// Claimed: the result is `base64_text` of the bytes, and `STANDARD.decode`
/// gives the bytes back from it (the engine decodes its own padded output).
#[verifier::external_body]
pub fn base64_encode(data: &[u8]) -> (r: String)
    ensures
        r@ == base64_text(data@),
        decodes_to(r, data@),
{
    base64::engine::general_purpose::STANDARD.encode(data)
}

/// The text that `s` percent-decodes to, `None` when the decoded bytes are
/// not UTF-8.
pub uninterp spec fn percent_decoded(s: Seq<char>) -> Option<Seq<char>>;

/// Calls `percent_decode_str(s).decode_utf8()` of the `percent-encoding`
/// crate. Claimed: the result is `percent_decoded` of the text.
#[verifier::external_body]
pub fn percent_decode(s: &str) -> (r: Option<String>)
    ensures
        match r {
            Some(t) => percent_decoded(s@) == Some(t@),
            None => percent_decoded(s@) is None,
        },
{
    percent_encoding::percent_decode_str(s).decode_utf8().ok().map(|c| c.into_owned())
}

/// How checking a signature value against a certificate came out.
#[derive(Debug, Clone)]
pub enum SigCheck {
    /// No supported public key could be taken from the certificate.
    NoKey,
    /// The signature method is refused, with the error message.
    BadMethod(String),
    /// Verification ran; `true` when the signature is valid.
    Verified(bool),
    /// Verification failed with an error, with its message.
    Failed(String),
}

pub enum SigCheckView {
    NoKey,
    BadMethod(Seq<char>),
    Verified(bool),
    Failed(Seq<char>),
}

impl SigCheck {
    pub open spec fn view(self) -> SigCheckView {
        match self {
            SigCheck::NoKey => SigCheckView::NoKey,
            SigCheck::BadMethod(m) => SigCheckView::BadMethod(m@),
            SigCheck::Verified(b) => SigCheckView::Verified(b),
            SigCheck::Failed(m) => SigCheckView::Failed(m@),
        }
    }
}

/// How checking signature `sig` over `data` with the public key of the DER
/// certificate `cert` under signature method `method` comes out.
pub uninterp spec fn signature_check_of(cert: Seq<u8>, method: Seq<char>, data: Seq<u8>, sig: Seq<u8>) -> SigCheckView;

/// Calls `SignatureAlgorithm::verify` of `bergshamra_crypto::sign`. Its key
/// argument is built from the certificate with
/// `bergshamra_keys::loader::load_x509_cert_der` and `Key::to_signing_key`,
/// and its algorithm object from the method URI with
/// `bergshamra_crypto::sign::from_uri`. A certificate without a usable key
/// is reported as `NoKey` before the method is looked at.
/// The key and the algorithm (a boxed trait object) are outside values that
/// no contract can look into, so the calls that make and use them stand in
/// this one item, whose outcome is named over the plain arguments.
/// Claimed: the outcome is `signature_check_of` of the arguments.
#[verifier::external_body]
pub fn check_signature(cert: &[u8], method: &str, data: &[u8], sig: &[u8]) -> (r: SigCheck)
    ensures
        r.view() == signature_check_of(cert@, method@, data@, sig@),
{
    let key = bergshamra_keys::loader::load_x509_cert_der(cert).ok().and_then(|k| k.to_signing_key().ok().flatten());
    let Some(key) = key else { return SigCheck::NoKey };
    match bergshamra_crypto::sign::from_uri(method) {
        Ok(alg) => match alg.verify(&key, data, sig) {
            Ok(b) => SigCheck::Verified(b),
            Err(e) => SigCheck::Failed(e.to_string()),
        },
        Err(e) => SigCheck::BadMethod(e.to_string()),
    }
}

} // verus!

verus! {

/// The RFC 3339 form, in whole seconds and with a `Z` suffix, of the UTC
/// time `secs` seconds after the Unix epoch; `None` when out of range.
pub uninterp spec fn rfc3339_of(secs: i64) -> Option<Seq<char>>;

/// Calls `DateTime::<Utc>::to_rfc3339_opts(SecondsFormat::Secs, true)` of
/// `chrono`, on the time that `DateTime::from_timestamp(secs, 0)` builds
/// from the argument. Claimed: the result is `rfc3339_of` of the argument.
#[verifier::external_body]
pub fn rfc3339_utc(secs: i64) -> (r: Option<String>)
    ensures
        opt_text(r) == rfc3339_of(secs),
{
    chrono::DateTime::<chrono::Utc>::from_timestamp(secs, 0)
        .map(|t| t.to_rfc3339_opts(chrono::SecondsFormat::Secs, true))
}

/// Calls `chrono::Utc::now` and returns its Unix time in seconds.
/// Nothing is claimed of the result: it is the clock's reading.
#[verifier::external_body]
pub fn now_unix_seconds() -> (r: i64) {
    chrono::Utc::now().timestamp()
}

} // verus!

verus! {

/// The SHA-256 digest of `data` as `tsp_ltv` computes it, or the message of
/// the error it reports.
pub uninterp spec fn tsp_sha256_of(data: Seq<u8>) -> core::result::Result<Seq<u8>, Seq<char>>;

/// Calls `tsp_ltv::crypto::algorithm::DigestAlgorithm::Sha256.digest`; an
/// error is handed back as its message.
/// Claimed: the result is `tsp_sha256_of` of the data.
#[verifier::external_body]
pub fn tsp_sha256(data: &[u8]) -> (r: core::result::Result<Vec<u8>, String>)
    ensures
        bytes_or_text_view(r) == tsp_sha256_of(data@),
{
    tsp_ltv::crypto::algorithm::DigestAlgorithm::Sha256.digest(data).map_err(|e| e.to_string())
}

/// The names of a certificate: subject and issuer, each DER-encoded, and
/// the issuer in its RFC 4514 text form.
#[derive(Debug, Clone)]
pub struct CertNames {
    pub subject_der: Vec<u8>,
    pub issuer_der: Vec<u8>,
    pub issuer_text: String,
}

impl CertNames {
    pub open spec fn view(self) -> (Seq<u8>, Seq<u8>, Seq<char>) {
        (self.subject_der@, self.issuer_der@, self.issuer_text@)
    }
}

/// The message of the error `Certificate::from_der` of `x509_cert` reports
/// for the bytes `der`; `None` when they decode.
pub uninterp spec fn certificate_decode_error(der: Seq<u8>) -> Option<Seq<char>>;

/// The names of the DER certificate `der` as `CertNames` views them, or the
/// message of the error met decoding it.
pub uninterp spec fn certificate_names_of(der: Seq<u8>) -> core::result::Result<(Seq<u8>, Seq<u8>, Seq<char>), Seq<char>>;

/// Calls `Certificate::from_der` of `x509_cert`; converts the subject and
/// issuer names of the result with `Encode::to_der` and the issuer with its
/// `Display`. An error is handed back as its message.
/// Claimed: the result is `certificate_names_of` of the bytes, and when
/// decoding fails it is that decoding error's message.
#[verifier::external_body]
pub fn certificate_names(der: &[u8]) -> (r: core::result::Result<CertNames, String>)
    ensures
        certificate_decode_error(der@) is Some ==> names_error_text(r) == certificate_decode_error(der@),
        match r {
            Ok(n) => certificate_names_of(der@) == Ok::<(Seq<u8>, Seq<u8>, Seq<char>), Seq<char>>(n.view()),
            Err(e) => certificate_names_of(der@) == Err::<(Seq<u8>, Seq<u8>, Seq<char>), Seq<char>>(e@),
        },
{
    let cert = x509_cert::Certificate::from_der(der).map_err(|e| e.to_string())?;
    let tbs = &cert.tbs_certificate;
    Ok(CertNames {
        subject_der: tbs.subject.to_der().map_err(|e| e.to_string())?,
        issuer_der: tbs.issuer.to_der().map_err(|e| e.to_string())?,
        issuer_text: tbs.issuer.to_string(),
    })
}

/// The message of a failed `certificate_names`.
pub open spec fn names_error_text(r: core::result::Result<CertNames, String>) -> Option<Seq<char>> {
    match r {
        Ok(_) => None,
        Err(e) => Some(e@),
    }
}

/// How checking an OCSP response came out.
#[derive(Debug, Clone)]
pub enum OcspCheck {
    /// The certificate is confirmed not revoked.
    Good,
    /// Another status, in its debug form.
    NotGood(String),
    /// The response could not be checked, with the error message.
    Invalid(String),
}

/// The message of an `Invalid` outcome.
pub open spec fn invalid_text(r: OcspCheck) -> Option<Seq<char>> {
    match r {
        OcspCheck::Invalid(m) => Some(m@),
        _ => None,
    }
}

/// Calls `tsp_ltv::ltv::ocsp_check_revocation` with the nonce and no fixed
/// validation time, on the certificates that `Certificate::from_der` of
/// `x509_cert` decodes from `leaf_der` and `issuer_der`; a decoding error
/// is reported as `Invalid` with its message, the leaf's first. Claimed:
/// only those decoding errors. Nothing is claimed of the outcome of the
/// revocation check itself: it depends on the current time.
#[verifier::external_body]
pub fn ocsp_check(ocsp_der: &[u8], leaf_der: &[u8], issuer_der: &[u8], nonce: &[u8]) -> (r: OcspCheck)
    ensures
        certificate_decode_error(leaf_der@) is Some ==> invalid_text(r) == certificate_decode_error(leaf_der@),
        certificate_decode_error(leaf_der@) is None && certificate_decode_error(issuer_der@) is Some
            ==> invalid_text(r) == certificate_decode_error(issuer_der@),
{
    let leaf = match x509_cert::Certificate::from_der(leaf_der) {
        Ok(c) => c,
        Err(e) => return OcspCheck::Invalid(e.to_string()),
    };
    let issuer = match x509_cert::Certificate::from_der(issuer_der) {
        Ok(c) => c,
        Err(e) => return OcspCheck::Invalid(e.to_string()),
    };
    match tsp_ltv::ltv::ocsp_check_revocation(ocsp_der, &leaf, &issuer, Some(nonce), None) {
        Ok(tsp_ltv::ltv::ValidationStatus::Valid { .. }) => OcspCheck::Good,
        Ok(other) => OcspCheck::NotGood(format!("{other:?}")),
        Err(e) => OcspCheck::Invalid(e.to_string()),
    }
}

} // verus!
