//! What the extension to T and LT level computes and decides; fetching the
//! timestamp and the OCSP response is left to the caller.
use vstd::prelude::*;

use crate::backend::{self, certificate_decode_error, certificate_names_of, tsp_sha256_of, OcspCheck};
use crate::error::LibError;
use crate::sign::{canonical_element_result, CreatedSignature};
use crate::text::{copy_bytes, join2};

verus! {

/// Where to get a timestamp and which certificates complete the chain.
#[derive(Debug, Clone)]
pub struct LtConfig {
    /// RFC 3161 timestamping service URL.
    pub tsa_url: String,
    /// DER certificates completing the signer's chain.
    pub issuer_certs_der: Vec<Vec<u8>>,
}

/// How the search for an issuer among candidate certificates ends.
pub enum IssuerSearch {
    /// The candidate at this index is the first whose subject is the issuer.
    Found(int),
    /// A candidate before any match could not be decoded; the error message.
    BadCandidate(Seq<char>),
    /// No candidate's subject is the issuer.
    NotFound,
}

/// Search `candidates`, in order, for the first certificate whose subject
/// name is `issuer`; stop at the first one that cannot be decoded.
pub open spec fn search_issuer(issuer: Seq<u8>, candidates: Seq<Seq<u8>>) -> IssuerSearch
    decreases candidates.len(),
{
    if candidates.len() == 0 {
        IssuerSearch::NotFound
    } else {
        match certificate_names_of(candidates[0]) {
            Err(e) => IssuerSearch::BadCandidate(e),
            Ok(names) => if names.0 == issuer {
                IssuerSearch::Found(0)
            } else {
                match search_issuer(issuer, candidates.drop_first()) {
                    IssuerSearch::Found(i) => IssuerSearch::Found(i + 1),
                    other => other,
                }
            },
        }
    }
}

/// The search ends at the first candidate that either fails to decode or
/// has the issuer as its subject name: a found certificate's subject name
/// (DER) is the issuer, and every candidate before it decodes and has
/// another subject; nothing is found only when every candidate decodes and
/// none has the issuer as its subject.
pub proof fn lemma_issuer_search(issuer: Seq<u8>, candidates: Seq<Seq<u8>>)
    ensures
        search_issuer(issuer, candidates) matches IssuerSearch::Found(i) ==> {
            &&& 0 <= i < candidates.len()
            &&& certificate_names_of(candidates[i]) matches Ok(n) && n.0 == issuer
            &&& forall|k: int| 0 <= k < i ==> (#[trigger] certificate_names_of(candidates[k]) matches Ok(n) && n.0 != issuer)
        },
        search_issuer(issuer, candidates) matches IssuerSearch::BadCandidate(e) ==> exists|i: int| {
            &&& 0 <= i < candidates.len()
            &&& certificate_names_of(candidates[i]) == Err::<(Seq<u8>, Seq<u8>, Seq<char>), Seq<char>>(e)
            &&& forall|k: int| 0 <= k < i ==> (#[trigger] certificate_names_of(candidates[k]) matches Ok(n) && n.0 != issuer)
        },
        search_issuer(issuer, candidates) is NotFound ==> forall|k: int| 0 <= k < candidates.len()
            ==> (#[trigger] certificate_names_of(candidates[k]) matches Ok(n) && n.0 != issuer),
    decreases candidates.len(),
{
    if candidates.len() > 0 {
        let rest = candidates.drop_first();
        lemma_issuer_search(issuer, rest);
        if let Ok(names) = certificate_names_of(candidates[0]) {
            if names.0 != issuer {
                assert forall|k: int| 1 <= k < candidates.len() implies candidates[k] == rest[k - 1] by {}
                match search_issuer(issuer, rest) {
                    IssuerSearch::Found(i) => {
                        assert(candidates[i + 1] == rest[i]);
                        assert forall|k: int| 0 <= k < i + 1 implies (#[trigger] certificate_names_of(candidates[k]) matches Ok(n) && n.0 != issuer) by {
                            if k > 0 {
                                assert(candidates[k] == rest[k - 1]);
                            }
                        }
                    },
                    IssuerSearch::BadCandidate(e) => {
                        let i = choose|i: int| {
                            &&& 0 <= i < rest.len()
                            &&& certificate_names_of(rest[i]) == Err::<(Seq<u8>, Seq<u8>, Seq<char>), Seq<char>>(e)
                            &&& forall|k: int| 0 <= k < i ==> (#[trigger] certificate_names_of(rest[k]) matches Ok(n) && n.0 != issuer)
                        };
                        assert(candidates[i + 1] == rest[i]);
                        assert forall|k: int| 0 <= k < i + 1 implies (#[trigger] certificate_names_of(candidates[k]) matches Ok(n) && n.0 != issuer) by {
                            if k > 0 {
                                assert(candidates[k] == rest[k - 1]);
                            }
                        }
                    },
                    IssuerSearch::NotFound => {
                        assert forall|k: int| 0 <= k < candidates.len() implies (#[trigger] certificate_names_of(candidates[k]) matches Ok(n) && n.0 != issuer) by {
                            if k > 0 {
                                assert(candidates[k] == rest[k - 1]);
                            }
                        }
                    },
                }
            }
        }
    }
}

pub open spec fn cert_error_text(r: Result<Vec<u8>, LibError>) -> Option<Seq<char>> {
    match r {
        Err(LibError::Certificate(m)) => Some(m@),
        _ => None,
    }
}

/// Find, among `candidates_der`, the certificate that issued the DER
/// certificate `leaf_der`: the first whose subject name equals the leaf's
/// issuer name (compared by their DER encodings).
pub fn find_issuer(leaf_der: &[u8], candidates_der: &Vec<Vec<u8>>) -> (r: Result<Vec<u8>, LibError>)
    ensures
        match certificate_names_of(leaf_der@) {
            Err(e) => cert_error_text(r) == Some("signer certificate: "@ + e),
            Ok(leaf) => match search_issuer(leaf.1, candidates_der@.map_values(|c: Vec<u8>| c@)) {
                IssuerSearch::Found(i) => r matches Ok(c) && c@ == candidates_der@[i]@,
                IssuerSearch::BadCandidate(e) => cert_error_text(r) == Some("issuer certificate: "@ + e),
                IssuerSearch::NotFound => cert_error_text(r) == Some("no issuer certificate provided for "@ + leaf.2),
            },
        },
        r matches Ok(c) ==> (certificate_names_of(leaf_der@) matches Ok(leaf)
            && certificate_names_of(c@) matches Ok(names) && names.0 == leaf.1),
{
    proof {
        if let Ok(leaf) = certificate_names_of(leaf_der@) {
            lemma_issuer_search(leaf.1, candidates_der@.map_values(|c: Vec<u8>| c@));
        }
    }
    let leaf = match backend::certificate_names(leaf_der) {
        Ok(n) => n,
        Err(e) => return Err(LibError::Certificate(join2("signer certificate: ", e.as_str()))),
    };
    let ghost all = candidates_der@.map_values(|c: Vec<u8>| c@);
    let mut k: usize = 0;
    assert(all.skip(0) =~= all);
    while k < candidates_der.len()
        invariant
            k <= candidates_der@.len(),
            all == candidates_der@.map_values(|c: Vec<u8>| c@),
            certificate_names_of(leaf_der@) == Ok::<(Seq<u8>, Seq<u8>, Seq<char>), Seq<char>>(leaf.view()),
            search_issuer(leaf.view().1, all) == match search_issuer(leaf.view().1, all.skip(k as int)) {
                IssuerSearch::Found(i) => IssuerSearch::Found(i + k),
                other => other,
            },
        decreases candidates_der.len() - k,
    {
        assert(all.skip(k as int).drop_first() =~= all.skip(k + 1));
        assert(all.skip(k as int)[0] == candidates_der@[k as int]@);
        let names = match backend::certificate_names(candidates_der[k].as_slice()) {
            Ok(n) => n,
            Err(e) => return Err(LibError::Certificate(join2("issuer certificate: ", e.as_str()))),
        };
        if crate::dsig::bytes_equal(names.subject_der.as_slice(), leaf.issuer_der.as_slice()) {
            return Ok(copy_bytes(candidates_der[k].as_slice()));
        }
        k += 1;
    }
    assert(all.skip(k as int) =~= Seq::<Seq<u8>>::empty());
    Err(LibError::Certificate(join2("no issuer certificate provided for ", leaf.issuer_text.as_str())))
}

/// An OCSP refusal message: a status other than good, or a response that
/// could not be checked, each followed by its detail.
pub open spec fn ocsp_refusal(m: Seq<char>) -> bool {
    "signer certificate revocation status is not good: "@.is_prefix_of(m) || "OCSP response invalid: "@.is_prefix_of(m)
}

pub open spec fn ocsp_error_text(r: Result<Vec<u8>, LibError>) -> Option<Seq<char>> {
    match r {
        Err(LibError::Ocsp(m)) => Some(m@),
        _ => None,
    }
}

/// Accept an OCSP response only when it confirms the certificate is good.
pub fn ocsp_outcome(ocsp_der: Vec<u8>, check: OcspCheck) -> (r: Result<Vec<u8>, LibError>)
    ensures
        match check {
            OcspCheck::Good => r matches Ok(v) && v@ == ocsp_der@,
            OcspCheck::NotGood(s) => ocsp_error_text(r) == Some("signer certificate revocation status is not good: "@ + s@),
            OcspCheck::Invalid(e) => ocsp_error_text(r) == Some("OCSP response invalid: "@ + e@),
        },
{
    match check {
        OcspCheck::Good => Ok(ocsp_der),
        OcspCheck::NotGood(s) => Err(LibError::Ocsp(join2("signer certificate revocation status is not good: ", s.as_str()))),
        OcspCheck::Invalid(e) => Err(LibError::Ocsp(join2("OCSP response invalid: ", e.as_str()))),
    }
}

/// Check a fetched OCSP response for `leaf_der` issued by `issuer_der`,
/// with the nonce sent in the request; hand the response back when it says
/// the certificate is good.
pub fn certificate_status(ocsp_der: Vec<u8>, leaf_der: &[u8], issuer_der: &[u8], nonce: &[u8]) -> (r: Result<Vec<u8>, LibError>)
    ensures
        r matches Ok(v) ==> v@ == ocsp_der@,
        r matches Err(e) ==> (e matches LibError::Ocsp(m) && ocsp_refusal(m@)),
        certificate_decode_error(leaf_der@) matches Some(e)
            ==> ocsp_error_text(r) == Some("OCSP response invalid: "@ + e),
        certificate_decode_error(leaf_der@) is None ==> (certificate_decode_error(issuer_der@) matches Some(e)
            ==> ocsp_error_text(r) == Some("OCSP response invalid: "@ + e)),
{
    let check = backend::ocsp_check(ocsp_der.as_slice(), leaf_der, issuer_der, nonce);
    let ghost c = check;
    let r = ocsp_outcome(ocsp_der, check);
    proof {
        let p1 = "signer certificate revocation status is not good: "@;
        let p2 = "OCSP response invalid: "@;
        match c {
            OcspCheck::NotGood(s) => assert((p1 + s@).subrange(0, p1.len() as int) =~= p1),
            OcspCheck::Invalid(e) => assert((p2 + e@).subrange(0, p2.len() as int) =~= p2),
            OcspCheck::Good => {},
        }
    }
    r
}

impl CreatedSignature {
    /// The SHA-256 digest of the canonical `ds:SignatureValue`: what is sent
    /// to the timestamping service.
    pub fn signature_timestamp_digest(&self) -> (r: Result<Vec<u8>, LibError>)
        ensures
            match canonical_element_result(self.xml_view(), crate::ns::DSIG@, "SignatureValue"@, backend::C14nMode::Inclusive11) {
                Err(m) => r matches Err(LibError::Xml(e)) && e@ == m,
                Ok(input) => match tsp_sha256_of(input) {
                    Ok(h) => r matches Ok(x) && x@ == h,
                    Err(e) => r matches Err(LibError::Crypto(m)) && m@ == e,
                },
            },
    {
        let input = self.timestamp_input()?;
        match backend::tsp_sha256(input.as_slice()) {
            Ok(h) => Ok(h),
            Err(e) => Err(LibError::Crypto(e)),
        }
    }
}

} // verus!
