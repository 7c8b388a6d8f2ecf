use base64::engine::general_purpose::STANDARD;
use base64::Engine;
use x509_cert::der::Decode;

use xades::dsig::{bytes_equal, verify_core};
use xades::error::LibError;
use xades::ids::{id_map_of, IdMap};
use xades::lt::{certificate_status, find_issuer, ocsp_outcome};
use xades::backend::OcspCheck;
use xades::ns;
use xades::backend::C14nMode;
use xades::sign::{canonicalize_subtree, prepare_signature, sign, signature_digest_uri, Signer, SigningOptions};
use xades::template::encode_reference_uri;
use xades::xml::XmlTree;
use xades::DataObject;

const CERT_B64: &str = "MIIBpjCCAU2gAwIBAgIUFuNMjRXn8UXY5FoHOW+TcIw5HaIwCgYIKoZIzj0EAwIwKDEUMBIGA1UEAwwLVGVzdCBTaWduZXIxEDAOBgNVBAoMB0V4YW1wbGUwIBcNMjYxMTE4MDI1MTU5WhgPMjEyNjEwMjUwMjUxNTlaMCgxFDASBgNVBAMMC1Rlc3QgU2lnbmVyMRAwDgYDVQQKDAdFeGFtcGxlMFkwEwYHKoZIzj0CAQYIKoZIzj0DAQcDQgAEPTNdGW23GgHuxX9A1FRxmG6aPRCumEKAmRVif6TxDBzV1HEi75RM32jG6xuGUPFLJcCTfGtMJAal9KDk15HqUaNTMFEwHQYDVR0OBBYEFKuYFaiAoIhMfBnvoyENuLx3sJKyMB8GA1UdIwQYMBaAFKuYFaiAoIhMfBnvoyENuLx3sJKyMA8GA1UdEwEB/wQFMAMBAf8wCgYIKoZIzj0EAwIDRwAwRAIgLecJhIHEiuwp+XrdHYdqnmMgtuKxOw3XVQq+jDOGyQECIB84fj2PfMTreFVHNQcGafFIQ8uRnk9ybw7zSoKx4QiT";

/// ECDSA P-256 signatures, under the key of `CERT_B64`, over the canonical
/// SignedInfo that `files()` and `options()` give, with signature Id `S0`
/// and with signature Id `sig-1`.
const SIG_S0_B64: &str = "83rz9szfx/3qQnTZMwsCb0jefa9RJCigmAr3L+TOGcb7bnHW+SbrPq9ORIRfnSlDywDzMIBCLL6gaw9StzLW6w==";
const SIG_SIG1_B64: &str = "apjz82UVeMVGqCVBIYXxc9iGbqPa+EqOXgiLRCC+e0wnrqEwztH5yX80QpZug7ZosS4CtS3YMPnZDCL/nbOw/A==";

/// A signer that hands back a fixed signature value.
struct TestSigner {
    cert: Vec<u8>,
    signature: Vec<u8>,
}

impl TestSigner {
    fn new() -> Self {
        Self::with_signature(SIG_S0_B64)
    }

    fn with_signature(b64: &str) -> Self {
        TestSigner { cert: STANDARD.decode(CERT_B64).unwrap(), signature: STANDARD.decode(b64).unwrap() }
    }
}

impl Signer for TestSigner {
    fn certificate_der(&self) -> &[u8] {
        &self.cert
    }

    fn algorithm_uri(&self) -> &str {
        ns::ECDSA_SHA256
    }

    fn sign(&self, _data: &[u8]) -> Result<Vec<u8>, LibError> {
        Ok(self.signature.clone())
    }
}

fn options() -> SigningOptions {
    SigningOptions { signing_time: Some(1_700_000_000), ..SigningOptions::default() }
}

fn files() -> Vec<DataObject<'static>> {
    vec![
        DataObject { name: "hello world.txt", mime_type: "text/plain", content: b"Hello, world!\n" },
        DataObject { name: "data.bin", mime_type: "application/octet-stream", content: &[0, 1, 2, 3, 255] },
    ]
}

/// Check the signature document `xml` against `data`, returning the errors.
fn check(xml: &str, data: &[DataObject<'_>]) -> (Vec<String>, xades::dsig::CoreOutcome) {
    let tree = XmlTree::parse(xml).unwrap();
    let ids = id_map_of(&tree).unwrap();
    let sig = tree.child(0, ns::DSIG, "Signature").unwrap();
    let mut errors = Vec::new();
    let outcome = verify_core(&tree, &ids, sig, data, &mut errors);
    (errors, outcome)
}

#[test]
fn signed_document_passes_core_checks() {
    let signer = TestSigner::new();
    let created = sign(&files(), &signer, &options()).unwrap();
    let (errors, outcome) = check(created.xml(), &files());
    assert!(errors.is_empty(), "errors: {errors:?}");
    assert_eq!(outcome.cert_der.as_deref(), Some(signer.cert.as_slice()));
    assert!(outcome.extra_certs.is_empty());
    assert!(outcome.sp_node.is_some());
}

#[test]
fn signing_time_and_references_in_document() {
    let signer = TestSigner::new();
    let created = sign(&files(), &signer, &options()).unwrap();
    let xml = created.xml();
    assert!(xml.contains("<xades:SigningTime>2023-11-14T22:13:20Z</xades:SigningTime>"));
    assert!(xml.contains("URI=\"hello%20world.txt\""));
    assert!(xml.contains("<xades:MimeType>application/octet-stream</xades:MimeType>"));
    assert!(xml.starts_with("<ds:Signature xmlns:ds=\"http://www.w3.org/2000/09/xmldsig#\" Id=\"S0\">"));
    let len = xml.len();
    assert_eq!(created.into_xml().len(), len);
}

#[test]
fn changed_content_is_reported() {
    let signer = TestSigner::new();
    let created = sign(&files(), &signer, &options()).unwrap();
    let mut changed = files();
    changed[1].content = &[9, 9, 9];
    let (errors, _) = check(created.xml(), &changed);
    assert_eq!(
        errors,
        vec![
            "digest mismatch for data file: data.bin".to_string(),
            "data file is not covered by the signature: data.bin".to_string(),
        ]
    );
}

#[test]
fn missing_and_extra_files_are_reported() {
    let signer = TestSigner::new();
    let created = sign(&files(), &signer, &options()).unwrap();
    let data = vec![
        files()[0],
        DataObject { name: "extra.txt", mime_type: "text/plain", content: b"x" },
    ];
    let (errors, _) = check(created.xml(), &data);
    assert_eq!(
        errors,
        vec![
            "signed file is missing from container: data.bin".to_string(),
            "data file is not covered by the signature: extra.txt".to_string(),
        ]
    );
}

#[test]
fn tampered_signature_value_is_reported() {
    let signer = TestSigner::new();
    let created = sign(&files(), &signer, &options()).unwrap();
    let xml = created.xml().replace("<xades:SigningTime>2023", "<xades:SigningTime>2024");
    let (errors, _) = check(&xml, &files());
    assert_eq!(errors, vec!["SignedProperties digest mismatch".to_string()]);
}

#[test]
fn extended_signature_still_passes() {
    let signer = TestSigner::new();
    let created = sign(&files(), &signer, &options()).unwrap();
    let input = created.timestamp_input().unwrap();
    assert!(input.starts_with(b"<ds:SignatureValue"));
    let digest = created.signature_timestamp_digest().unwrap();
    assert_eq!(digest, bergshamra_crypto::digest::digest(ns::SHA256, &input).unwrap());
    let t = created.extend_to_lt_with(vec![1, 2, 3], vec![vec![4, 5]], vec![signer.cert.clone()]).unwrap();
    let xml = t.xml().to_string();
    assert!(xml.contains("<xades:EncapsulatedTimeStamp>AQID</xades:EncapsulatedTimeStamp>"));
    assert!(xml.contains("<xades:EncapsulatedOCSPValue>BAU=</xades:EncapsulatedOCSPValue>"));
    assert!(xml.contains("<xades:CertificateValues><xades:EncapsulatedX509Certificate>"));
    let (errors, outcome) = check(&xml, &files());
    assert!(errors.is_empty(), "errors: {errors:?}");
    assert!(outcome.sp_node.is_some());
}

#[test]
fn extend_to_t_with_adds_only_the_timestamp() {
    let signer = TestSigner::new();
    let created = sign(&files(), &signer, &options()).unwrap();
    let t = created.extend_to_t_with(vec![7]).unwrap();
    assert!(t.xml().contains("<xades:EncapsulatedTimeStamp>Bw==</xades:EncapsulatedTimeStamp>"));
    assert!(!t.xml().contains("CertificateValues"));
    assert!(!t.xml().contains("RevocationValues"));
}

#[test]
fn empty_timestamp_is_refused() {
    let signer = TestSigner::new();
    let created = sign(&files(), &signer, &options()).unwrap();
    match created.extend_to_t_with(Vec::new()) {
        Err(LibError::Timestamp(m)) => assert_eq!(m, "empty timestamp token"),
        _ => panic!("expected a timestamp error"),
    }
}

#[test]
fn empty_signature_is_refused() {
    let signer = TestSigner::new();
    let prepared = prepare_signature(&files(), &signer.cert, ns::ECDSA_SHA256, &options()).unwrap();
    match prepared.finalize(&[]) {
        Err(LibError::Signing(m)) => assert_eq!(m, "empty signature value"),
        _ => panic!("expected a signing error"),
    }
}

#[test]
fn prepared_digest_is_digest_of_signed_info() {
    let signer = TestSigner::new();
    let prepared = prepare_signature(&files(), &signer.cert, ns::RSA_SHA384, &options()).unwrap();
    let expected = bergshamra_crypto::digest::digest(ns::SHA384, &prepared.signed_info).unwrap();
    assert_eq!(prepared.digest_to_sign, expected);
    assert!(prepared.signed_info.starts_with(b"<ds:SignedInfo"));
}

#[test]
fn prepare_refuses_bad_inputs() {
    let signer = TestSigner::new();
    match prepare_signature(&[], &signer.cert, ns::ECDSA_SHA256, &options()) {
        Err(LibError::Input(m)) => assert_eq!(m, "nothing to sign: no data objects"),
        _ => panic!("expected an input error"),
    }
    let mut o = options();
    o.digest_uri = "urn:md5".to_string();
    match prepare_signature(&files(), &signer.cert, ns::ECDSA_SHA256, &o) {
        Err(LibError::Unsupported(m)) => assert_eq!(m, "digest_uri: unsupported digest method: urn:md5"),
        _ => panic!("expected an unsupported error"),
    }
    let mut o = options();
    o.c14n_uri = "urn:none".to_string();
    match prepare_signature(&files(), &signer.cert, ns::ECDSA_SHA256, &o) {
        Err(LibError::Unsupported(m)) => assert_eq!(m, "c14n_uri: unsupported canonicalization method: urn:none"),
        _ => panic!("expected an unsupported error"),
    }
    match prepare_signature(&files(), &signer.cert, "urn:dsa", &options()) {
        Err(LibError::Unsupported(m)) => assert_eq!(m, "sig_method_uri: unsupported signature method: urn:dsa"),
        _ => panic!("expected an unsupported error"),
    }
}

#[test]
fn default_options() {
    let o = SigningOptions::default();
    assert_eq!(o.signature_id, None);
    assert_eq!(o.signing_time, None);
    assert_eq!(o.digest_uri, "http://www.w3.org/2001/04/xmlenc#sha256");
    assert_eq!(o.c14n_uri, "http://www.w3.org/2006/12/xml-c14n11");
}

#[test]
fn custom_signature_id() {
    let signer = TestSigner::with_signature(SIG_SIG1_B64);
    let mut o = options();
    o.signature_id = Some("sig-1".to_string());
    let created = sign(&files(), &signer, &o).unwrap();
    assert!(created.xml().contains("Id=\"sig-1-SignedProperties\""));
    let (errors, _) = check(created.xml(), &files());
    assert!(errors.is_empty(), "errors: {errors:?}");
}

#[test]
fn signature_digest_uris() {
    assert_eq!(signature_digest_uri(ns::RSA_SHA256).unwrap(), ns::SHA256);
    assert_eq!(signature_digest_uri(ns::ECDSA_SHA384).unwrap(), ns::SHA384);
    assert_eq!(signature_digest_uri(ns::RSA_SHA512).unwrap(), ns::SHA512);
    assert!(signature_digest_uri("urn:x").is_err());
}

#[test]
fn reference_uris_are_percent_encoded() {
    assert_eq!(encode_reference_uri("a b.txt"), "a%20b.txt");
    assert_eq!(encode_reference_uri("Dok_1-~.pdf"), "Dok_1-~.pdf");
    assert_eq!(encode_reference_uri("ä/%"), "%C3%A4%2F%25");
}

#[test]
fn issuer_is_found_by_name() {
    let signer = TestSigner::new();
    let candidates = vec![signer.cert.clone()];
    assert_eq!(find_issuer(&signer.cert, &candidates).unwrap(), signer.cert);
    match find_issuer(&signer.cert, &Vec::new()) {
        Err(LibError::Certificate(m)) => assert_eq!(m, "no issuer certificate provided for O=Example,CN=Test Signer"),
        other => panic!("unexpected: {other:?}"),
    }
    match find_issuer(&signer.cert, &vec![vec![1, 2, 3]]) {
        Err(LibError::Certificate(m)) => assert!(m.starts_with("issuer certificate: ")),
        other => panic!("unexpected: {other:?}"),
    }
    match find_issuer(&[0], &candidates) {
        Err(LibError::Certificate(m)) => assert!(m.starts_with("signer certificate: ")),
        other => panic!("unexpected: {other:?}"),
    }
}

#[test]
fn ocsp_outcomes() {
    assert_eq!(ocsp_outcome(vec![1], OcspCheck::Good).unwrap(), vec![1]);
    match ocsp_outcome(vec![1], OcspCheck::NotGood("Revoked".to_string())) {
        Err(LibError::Ocsp(m)) => assert_eq!(m, "signer certificate revocation status is not good: Revoked"),
        other => panic!("unexpected: {other:?}"),
    }
    match ocsp_outcome(vec![1], OcspCheck::Invalid("bad".to_string())) {
        Err(LibError::Ocsp(m)) => assert_eq!(m, "OCSP response invalid: bad"),
        other => panic!("unexpected: {other:?}"),
    }
}

#[test]
fn malformed_ocsp_response_is_refused() {
    let signer = TestSigner::new();
    match certificate_status(vec![1, 2], &signer.cert, &signer.cert, &[0]) {
        Err(LibError::Ocsp(m)) => assert!(m.starts_with("OCSP response invalid: "), "{m}"),
        other => panic!("unexpected: {other:?}"),
    }
}

#[test]
fn undecodable_certificate_is_reported_by_status_check() {
    let signer = TestSigner::new();
    let decode_error = x509_cert::Certificate::from_der(&[1, 2, 3]).unwrap_err().to_string();
    match certificate_status(vec![7], &[1, 2, 3], &signer.cert, &[0]) {
        Err(LibError::Ocsp(m)) => assert_eq!(m, format!("OCSP response invalid: {decode_error}")),
        other => panic!("unexpected: {other:?}"),
    }
    match certificate_status(vec![7], &signer.cert, &[1, 2, 3], &[0]) {
        Err(LibError::Ocsp(m)) => assert_eq!(m, format!("OCSP response invalid: {decode_error}")),
        other => panic!("unexpected: {other:?}"),
    }
}

#[test]
fn id_map_refuses_duplicates() {
    let tree = XmlTree::parse("<r><a Id=\"x\"/><b ID=\"x\"/></r>").unwrap();
    match id_map_of(&tree) {
        Err(LibError::Crypto(m)) => assert_eq!(m, "invalid XML structure: duplicate ID: x"),
        other => panic!("unexpected: {:?}", other.is_ok()),
    }
    let tree = XmlTree::parse("<r><a Id=\"x\"/><b id=\"y\"/></r>").unwrap();
    let ids = id_map_of(&tree).unwrap();
    assert_eq!(ids.get("x"), Some(2));
    assert_eq!(ids.get("y"), Some(3));
    assert_eq!(ids.get("z"), None);
}

#[test]
fn id_map_insert_and_get() {
    let mut m = IdMap::new();
    assert!(m.insert("a", 1));
    assert!(!m.insert("a", 2));
    assert_eq!(m.get("a"), Some(1));
}

#[test]
fn core_checks_report_structure_problems() {
    let data = files();
    let tree = XmlTree::parse("<ds:Signature xmlns:ds=\"http://www.w3.org/2000/09/xmldsig#\"/>").unwrap();
    let mut errors = vec!["earlier".to_string()];
    let outcome = verify_core(&tree, &IdMap::new(), 1, &data, &mut errors);
    assert_eq!(errors, vec!["earlier".to_string(), "missing SignedInfo".to_string()]);
    assert!(outcome.cert_der.is_none());

    let xml = "<ds:Signature xmlns:ds=\"http://www.w3.org/2000/09/xmldsig#\"><ds:SignedInfo><ds:CanonicalizationMethod Algorithm=\"urn:x\"/></ds:SignedInfo></ds:Signature>";
    let tree = XmlTree::parse(xml).unwrap();
    let mut errors = Vec::new();
    verify_core(&tree, &IdMap::new(), 1, &data, &mut errors);
    assert_eq!(errors, vec!["unsupported canonicalization method: urn:x".to_string()]);

    let xml = "<ds:Signature xmlns:ds=\"http://www.w3.org/2000/09/xmldsig#\"><ds:SignedInfo><ds:CanonicalizationMethod Algorithm=\"http://www.w3.org/2001/10/xml-exc-c14n#\"/><ds:SignatureMethod Algorithm=\"http://www.w3.org/2000/09/xmldsig#rsa-sha1\"/></ds:SignedInfo></ds:Signature>";
    let tree = XmlTree::parse(xml).unwrap();
    let mut errors = Vec::new();
    verify_core(&tree, &IdMap::new(), 1, &data, &mut errors);
    assert_eq!(errors, vec!["unsupported signature method: http://www.w3.org/2000/09/xmldsig#rsa-sha1".to_string()]);
}

#[test]
fn core_checks_report_every_missing_part() {
    let xml = "<ds:Signature xmlns:ds=\"http://www.w3.org/2000/09/xmldsig#\"><ds:SignedInfo><ds:CanonicalizationMethod Algorithm=\"http://www.w3.org/2001/10/xml-exc-c14n#\"/><ds:SignatureMethod Algorithm=\"http://www.w3.org/2001/04/xmldsig-more#rsa-sha256\"/></ds:SignedInfo></ds:Signature>";
    let tree = XmlTree::parse(xml).unwrap();
    let data = vec![DataObject { name: "a.txt", mime_type: "text/plain", content: b"a" }];
    let mut errors = Vec::new();
    verify_core(&tree, &IdMap::new(), 1, &data, &mut errors);
    assert_eq!(
        errors,
        vec![
            "SignedInfo has no references".to_string(),
            "expected exactly one SignedProperties reference, found 0".to_string(),
            "data file is not covered by the signature: a.txt".to_string(),
            "KeyInfo contains no X509Certificate".to_string(),
            "missing or malformed SignatureValue".to_string(),
        ]
    );
}

#[test]
fn reference_problems_are_reported() {
    let xml = "<ds:Signature xmlns:ds=\"http://www.w3.org/2000/09/xmldsig#\"><ds:SignedInfo><ds:CanonicalizationMethod Algorithm=\"http://www.w3.org/2001/10/xml-exc-c14n#\"/><ds:SignatureMethod Algorithm=\"http://www.w3.org/2001/04/xmldsig-more#rsa-sha256\"/><ds:Reference URI=\"a.txt\"><ds:DigestMethod Algorithm=\"http://www.w3.org/2000/09/xmldsig#sha1\"/><ds:DigestValue>AA==</ds:DigestValue></ds:Reference><ds:Reference URI=\"b.txt\"><ds:DigestMethod Algorithm=\"http://www.w3.org/2001/04/xmlenc#sha256\"/><ds:DigestValue>!!</ds:DigestValue></ds:Reference><ds:Reference URI=\"#x\"><ds:DigestMethod Algorithm=\"http://www.w3.org/2001/04/xmlenc#sha256\"/><ds:DigestValue>AA==</ds:DigestValue></ds:Reference><ds:Reference URI=\"c.txt\"><ds:Transforms><ds:Transform Algorithm=\"urn:t\"/></ds:Transforms><ds:DigestMethod Algorithm=\"http://www.w3.org/2001/04/xmlenc#sha256\"/><ds:DigestValue>AA==</ds:DigestValue></ds:Reference></ds:SignedInfo><ds:SignatureValue>AA==</ds:SignatureValue><ds:KeyInfo><ds:X509Data><ds:X509Certificate>!!</ds:X509Certificate></ds:X509Data></ds:KeyInfo></ds:Signature>";
    let tree = XmlTree::parse(xml).unwrap();
    let mut errors = Vec::new();
    verify_core(&tree, &IdMap::new(), 1, &[], &mut errors);
    assert_eq!(errors[0], "reference a.txt: unsupported digest method: http://www.w3.org/2000/09/xmldsig#sha1");
    assert_eq!(errors[1], "reference b.txt: missing or malformed DigestValue");
    assert_eq!(errors[2], "same-document reference #x is not a SignedProperties reference");
    assert_eq!(errors[3], "data file reference c.txt must not have transforms");
    assert_eq!(errors[4], "expected exactly one SignedProperties reference, found 0");
    assert!(errors[5].starts_with("KeyInfo certificate is not valid base64: "));
    assert_eq!(errors[6], "KeyInfo contains no X509Certificate");
    assert_eq!(errors.len(), 7);
}

#[test]
fn parse_errors_are_xml_errors() {
    match XmlTree::parse("<a><b></a>") {
        Err(LibError::Xml(_)) => {}
        other => panic!("unexpected: {:?}", other.is_ok()),
    }
}

#[test]
fn xml_lookups() {
    let tree = XmlTree::parse("<r xmlns=\"urn:n\"><a k=\"1\"> x <b>y</b></a><a/></r>").unwrap();
    assert_eq!(tree.children(1, "urn:n", "a"), vec![2, 6]);
    assert_eq!(tree.child(1, "urn:n", "a"), Some(2));
    assert_eq!(tree.descendants(1, "urn:n", "b"), vec![4]);
    assert_eq!(tree.attr(2, "k"), Some("1"));
    assert_eq!(tree.attr(2, "z"), None);
    assert_eq!(tree.text(2), "x y");
    assert_eq!(tree.text(2).trim(), tree.text(2));
    assert!(tree.is_within(1, 4));
    assert!(!tree.is_within(2, 6));
    assert!(tree.is_element(4, "urn:n", "b"));
    assert!(!tree.is_element(4, "", "b"));
}

#[test]
fn byte_comparison() {
    assert!(bytes_equal(&[1, 2], &[1, 2]));
    assert!(!bytes_equal(&[1, 2], &[1, 3]));
    assert!(!bytes_equal(&[1], &[1, 2]));
}

#[test]
fn text_helpers() {
    assert_eq!(xades::text::decimal(0), "0");
    assert_eq!(xades::text::decimal(1203), "1203");
    assert_eq!(xades::text::strip_breaks(" a\r\nb c "), "abc");
}

/// A signer whose signing step gives what it was made with.
struct FixedOutcomeSigner {
    cert: Vec<u8>,
    outcome: Result<Vec<u8>, LibError>,
}

impl Signer for FixedOutcomeSigner {
    fn certificate_der(&self) -> &[u8] {
        &self.cert
    }

    fn algorithm_uri(&self) -> &str {
        ns::ECDSA_SHA256
    }

    fn sign(&self, _data: &[u8]) -> Result<Vec<u8>, LibError> {
        self.outcome.clone()
    }
}

#[test]
fn signer_refusal_is_passed_on() {
    let signer = FixedOutcomeSigner {
        cert: STANDARD.decode(CERT_B64).unwrap(),
        outcome: Err(LibError::Signing("token locked".to_string())),
    };
    match sign(&files(), &signer, &options()) {
        Err(LibError::Signing(m)) => assert_eq!(m, "token locked"),
        _ => panic!("expected the signer's error"),
    }
}

#[test]
fn empty_signature_from_signer_is_refused() {
    let signer = FixedOutcomeSigner { cert: STANDARD.decode(CERT_B64).unwrap(), outcome: Ok(Vec::new()) };
    match sign(&files(), &signer, &options()) {
        Err(LibError::Signing(m)) => assert_eq!(m, "empty signature value"),
        _ => panic!("expected a signing error"),
    }
}

#[test]
fn signature_value_decodes_back_from_document() {
    let signer = TestSigner::new();
    let created = sign(&files(), &signer, &options()).unwrap();
    let xml = created.xml();
    let start = xml.find("-SIG\">").unwrap() + "-SIG\">".len();
    let end = xml.find("</ds:SignatureValue>").unwrap();
    assert_eq!(STANDARD.decode(&xml[start..end]).unwrap(), signer.signature);
    assert!(!xml.contains("UnsignedProperties"));
}

#[test]
fn missing_element_is_named() {
    match canonicalize_subtree("<a/>", ns::DSIG, "SignatureValue", C14nMode::Inclusive11) {
        Err(LibError::Xml(m)) => assert_eq!(m, "missing element: SignatureValue"),
        other => panic!("unexpected: {other:?}"),
    }
    match canonicalize_subtree("<a>", ns::DSIG, "SignatureValue", C14nMode::Inclusive11) {
        Err(LibError::Xml(_)) => {}
        other => panic!("unexpected: {other:?}"),
    }
}
