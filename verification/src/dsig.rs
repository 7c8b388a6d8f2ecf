//! Core XML-DSig checks of one `ds:Signature` element: references, their
//! digests, the signer certificate and the signature value.
use vstd::prelude::*;

use crate::backend::{
    self, base64_decoded, c14n_mode_of, canonical_form, digest_of, percent_decoded,
    signature_check_of, C14nMode, SigCheck, SigCheckView,
};
use crate::ids::IdMap;
use crate::ns;
use crate::text::{decimal, decimal_text, join2, join3, join4, strip_breaks, without_breaks};
use crate::xml::{str_equal, XmlTree};
use crate::DataObject;

verus! {

// ---------------------------------------------------------------- specs

/// The digest methods accepted for references.
pub open spec fn allowed_digest(uri: Seq<char>) -> bool {
    uri == ns::SHA256@ || uri == ns::SHA384@ || uri == ns::SHA512@
}

/// The signature methods accepted for `ds:SignedInfo`.
pub open spec fn allowed_signature(uri: Seq<char>) -> bool {
    ||| uri == ns::RSA_SHA256@
    ||| uri == ns::RSA_SHA384@
    ||| uri == ns::RSA_SHA512@
    ||| uri == ns::ECDSA_SHA256@
    ||| uri == ns::ECDSA_SHA384@
    ||| uri == ns::ECDSA_SHA512@
}

pub open spec fn or_empty(o: Option<Seq<char>>) -> Seq<char> {
    match o {
        Some(s) => s,
        None => Seq::empty(),
    }
}

/// The `Algorithm` attribute of the first `ds:{local}` child of `parent`,
/// the empty string when either is missing.
pub open spec fn algorithm_of(t: XmlTree, parent: int, local: Seq<char>) -> Seq<char> {
    match t.first_named_child(parent, ns::DSIG@, local) {
        Some(n) => or_empty(t.attribute(n as int, "Algorithm"@)),
        None => Seq::empty(),
    }
}

/// The base64 content of element `node`: its trimmed text without line
/// breaks and spaces, decoded; `None` when it is not valid base64.
pub open spec fn base64_content(t: XmlTree, node: int) -> Option<Seq<u8>> {
    match base64_decoded(without_breaks(t.trimmed_text(node))) {
        Ok(b) => Some(b),
        Err(_) => None,
    }
}

/// The decoded `ds:DigestValue` of reference `r`.
pub open spec fn digest_value_of(t: XmlTree, r: int) -> Option<Seq<u8>> {
    match t.first_named_child(r, ns::DSIG@, "DigestValue"@) {
        Some(n) => base64_content(t, n as int),
        None => None,
    }
}

/// The `Algorithm` of each `ds:Transform` of reference `r`, empty when the
/// attribute is missing.
pub open spec fn transforms_of(t: XmlTree, r: int) -> Seq<Seq<char>> {
    match t.first_named_child(r, ns::DSIG@, "Transforms"@) {
        Some(tr) => t.named_children(tr as int, ns::DSIG@, "Transform"@).map_values(
            |n: usize| or_empty(t.attribute(n as int, "Algorithm"@)),
        ),
        None => Seq::empty(),
    }
}

/// The index of the first data object called `name`.
pub open spec fn first_file(files: Seq<DataObject>, name: Seq<char>) -> Option<int>
    decreases files.len(),
{
    if files.len() == 0 {
        None
    } else if files[0].name@ == name {
        Some(0)
    } else {
        match first_file(files.drop_first(), name) {
            Some(i) => Some(i + 1),
            None => None,
        }
    }
}

pub open spec fn msg_unsupported_digest(uri: Seq<char>, digest: Seq<char>) -> Seq<char> {
    "reference "@ + uri + ": unsupported digest method: "@ + digest
}

pub open spec fn msg_bad_digest_value(uri: Seq<char>) -> Seq<char> {
    "reference "@ + uri + ": missing or malformed DigestValue"@
}

pub open spec fn msg_not_sp_reference(uri: Seq<char>) -> Seq<char> {
    "same-document reference "@ + uri + " is not a SignedProperties reference"@
}

pub open spec fn msg_no_such_id(uri: Seq<char>) -> Seq<char> {
    "reference "@ + uri + ": no element with that Id"@
}

pub open spec fn msg_not_sp_target(uri: Seq<char>) -> Seq<char> {
    "reference "@ + uri + " does not target SignedProperties"@
}

pub open spec fn msg_sp_outside(uri: Seq<char>) -> Seq<char> {
    "reference "@ + uri + " targets SignedProperties outside this signature"@
}

pub open spec fn msg_unsupported_transform(uri: Seq<char>, one: Seq<char>) -> Seq<char> {
    "reference "@ + uri + ": unsupported transform: "@ + one
}

pub open spec fn msg_transform_chain(uri: Seq<char>, n: nat) -> Seq<char> {
    "reference "@ + uri + ": unexpected transform chain of length "@ + decimal_text(n)
}

pub open spec fn msg_c14n_failed(uri: Seq<char>) -> Seq<char> {
    "reference "@ + uri + ": canonicalization failed"@
}

pub open spec fn msg_digest_failed(uri: Seq<char>, e: Seq<char>) -> Seq<char> {
    "reference "@ + uri + ": digest failed: "@ + e
}

pub open spec fn msg_file_transforms(uri: Seq<char>) -> Seq<char> {
    "data file reference "@ + uri + " must not have transforms"@
}

pub open spec fn msg_bad_uri(uri: Seq<char>) -> Seq<char> {
    "reference URI is not valid UTF-8: "@ + uri
}

pub open spec fn msg_missing_file(name: Seq<char>) -> Seq<char> {
    "signed file is missing from container: "@ + name
}

pub open spec fn msg_file_mismatch(name: Seq<char>) -> Seq<char> {
    "digest mismatch for data file: "@ + name
}

pub open spec fn msg_sp_count(n: nat) -> Seq<char> {
    "expected exactly one SignedProperties reference, found "@ + decimal_text(n)
}

pub open spec fn msg_uncovered(name: Seq<char>) -> Seq<char> {
    "data file is not covered by the signature: "@ + name
}

pub open spec fn msg_bad_cert_base64(e: Seq<char>) -> Seq<char> {
    "KeyInfo certificate is not valid base64: "@ + e
}

/// How a `SignedProperties` reference selects its canonicalization:
/// no transform means Canonical XML 1.0, one transform must name a
/// canonicalization, more are refused.
pub open spec fn sp_mode(uri: Seq<char>, transforms: Seq<Seq<char>>) -> Result<C14nMode, Seq<char>> {
    if transforms.len() == 0 {
        Ok(C14nMode::Inclusive)
    } else if transforms.len() == 1 {
        match c14n_mode_of(transforms[0]) {
            Some(m) => Ok(m),
            None => Err(msg_unsupported_transform(uri, transforms[0])),
        }
    } else {
        Err(msg_transform_chain(uri, transforms.len()))
    }
}

/// What the reference checks have gathered so far.
pub struct RefState {
    pub errors: Seq<Seq<char>>,
    /// Names of the data objects whose digest matched.
    pub covered: Seq<Seq<char>>,
    /// Number of same-document (`#...`) references of the SignedProperties type.
    pub sp_count: nat,
    /// The SignedProperties element whose digest matched.
    pub sp_node: Option<usize>,
}

impl RefState {
    pub open spec fn err(self, m: Seq<char>) -> RefState {
        RefState { errors: self.errors.push(m), ..self }
    }
}

pub open spec fn is_fragment_uri(uri: Seq<char>) -> bool {
    uri.len() > 0 && uri[0] == '#'
}

/// The check of a same-document reference `uri` whose digest method and
/// DigestValue were accepted.
pub open spec fn sp_reference_step(
    t: XmlTree, ids: Map<Seq<char>, usize>, sig: int, st: RefState, r: int,
    uri: Seq<char>, digest_uri: Seq<char>, expected: Seq<u8>,
) -> RefState {
    let ref_type = or_empty(t.attribute(r, "Type"@));
    if ref_type != ns::TYPE_SIGNED_PROPERTIES@ {
        st.err(msg_not_sp_reference(uri))
    } else {
        let st = RefState { sp_count: st.sp_count + 1, ..st };
        let fragment = uri.skip(1);
        if !ids.contains_key(fragment) {
            st.err(msg_no_such_id(uri))
        } else {
            let target = ids[fragment];
            if !t.element_name_is(target as int, ns::XADES@, "SignedProperties"@) {
                st.err(msg_not_sp_target(uri))
            } else if !t.within(sig, target as int) {
                st.err(msg_sp_outside(uri))
            } else {
                match sp_mode(uri, transforms_of(t, r)) {
                    Err(m) => st.err(m),
                    Ok(mode) => match canonical_form(t.source@, target, mode) {
                        Err(_) => st.err(msg_c14n_failed(uri)),
                        Ok(c) => match digest_of(digest_uri, c) {
                            Ok(actual) => if actual == expected {
                                RefState { sp_node: Some(target), ..st }
                            } else {
                                st.err("SignedProperties digest mismatch"@)
                            },
                            Err(e) => st.err(msg_digest_failed(uri, e)),
                        },
                    },
                }
            }
        }
    }
}

/// The check of a reference to a data object.
pub open spec fn file_reference_step(
    t: XmlTree, files: Seq<DataObject>, st: RefState, r: int,
    uri: Seq<char>, digest_uri: Seq<char>, expected: Seq<u8>,
) -> RefState {
    if transforms_of(t, r).len() != 0 {
        st.err(msg_file_transforms(uri))
    } else {
        match percent_decoded(uri) {
            None => st.err(msg_bad_uri(uri)),
            Some(name) => match first_file(files, name) {
                None => st.err(msg_missing_file(name)),
                Some(i) => match digest_of(digest_uri, files[i].content@) {
                    Ok(actual) => if actual == expected {
                        RefState { covered: st.covered.push(files[i].name@), ..st }
                    } else {
                        st.err(msg_file_mismatch(name))
                    },
                    Err(e) => st.err(msg_digest_failed(uri, e)),
                },
            },
        }
    }
}

/// The check of one `ds:Reference`.
pub open spec fn reference_step(
    t: XmlTree, ids: Map<Seq<char>, usize>, sig: int, files: Seq<DataObject>, st: RefState, r: int,
) -> RefState {
    let uri = or_empty(t.attribute(r, "URI"@));
    let digest_uri = algorithm_of(t, r, "DigestMethod"@);
    if !allowed_digest(digest_uri) {
        st.err(msg_unsupported_digest(uri, digest_uri))
    } else {
        match digest_value_of(t, r) {
            None => st.err(msg_bad_digest_value(uri)),
            Some(expected) => if is_fragment_uri(uri) {
                sp_reference_step(t, ids, sig, st, r, uri, digest_uri, expected)
            } else {
                file_reference_step(t, files, st, r, uri, digest_uri, expected)
            },
        }
    }
}

pub open spec fn empty_ref_state() -> RefState {
    RefState { errors: Seq::empty(), covered: Seq::empty(), sp_count: 0, sp_node: None }
}

/// The checks of the references `refs`, in order.
pub open spec fn references_checked(
    t: XmlTree, ids: Map<Seq<char>, usize>, sig: int, files: Seq<DataObject>, refs: Seq<usize>,
) -> RefState
    decreases refs.len(),
{
    if refs.len() == 0 {
        empty_ref_state()
    } else {
        reference_step(t, ids, sig, files, references_checked(t, ids, sig, files, refs.drop_last()), refs.last() as int)
    }
}

/// An error for each data object whose name is not among `covered`.
pub open spec fn uncovered_errors(files: Seq<DataObject>, covered: Seq<Seq<char>>) -> Seq<Seq<char>>
    decreases files.len(),
{
    if files.len() == 0 {
        Seq::empty()
    } else {
        let rest = uncovered_errors(files.drop_last(), covered);
        if covered.contains(files.last().name@) {
            rest
        } else {
            rest.push(msg_uncovered(files.last().name@))
        }
    }
}

/// The certificates found in `ds:KeyInfo` so far.
pub struct KeyState {
    pub cert: Option<Seq<u8>>,
    pub extra: Seq<Seq<u8>>,
    pub errors: Seq<Seq<char>>,
}

pub open spec fn key_step(t: XmlTree, st: KeyState, node: int) -> KeyState {
    match base64_decoded(without_breaks(t.trimmed_text(node))) {
        Ok(der) => if st.cert is None {
            KeyState { cert: Some(der), ..st }
        } else {
            KeyState { extra: st.extra.push(der), ..st }
        },
        Err(e) => KeyState { errors: st.errors.push(msg_bad_cert_base64(e)), ..st },
    }
}

pub open spec fn keys_read(t: XmlTree, nodes: Seq<usize>) -> KeyState
    decreases nodes.len(),
{
    if nodes.len() == 0 {
        KeyState { cert: None, extra: Seq::empty(), errors: Seq::empty() }
    } else {
        key_step(t, keys_read(t, nodes.drop_last()), nodes.last() as int)
    }
}

/// The certificates of the `ds:X509Certificate` elements under the
/// signature's `ds:KeyInfo`: the first is the signer's.
pub open spec fn key_info_of(t: XmlTree, sig: int) -> KeyState {
    match t.first_named_child(sig, ns::DSIG@, "KeyInfo"@) {
        Some(ki) => keys_read(t, t.named_descendants(ki as int, ns::DSIG@, "X509Certificate"@)),
        None => KeyState { cert: None, extra: Seq::empty(), errors: Seq::empty() },
    }
}

/// The decoded, non-empty `ds:SignatureValue` of the signature.
pub open spec fn signature_value_of(t: XmlTree, sig: int) -> Option<Seq<u8>> {
    match t.first_named_child(sig, ns::DSIG@, "SignatureValue"@) {
        Some(n) => match base64_content(t, n as int) {
            Some(v) => if v.len() > 0 { Some(v) } else { None },
            None => None,
        },
        None => None,
    }
}

/// The errors of checking the signature value over the canonical SignedInfo.
pub open spec fn signature_errors(
    t: XmlTree, sig: int, signed_info: usize, mode: C14nMode, method: Seq<char>, cert: Option<Seq<u8>>,
) -> Seq<Seq<char>> {
    match signature_value_of(t, sig) {
        None => seq!["missing or malformed SignatureValue"@],
        Some(sv) => match canonical_form(t.source@, signed_info, mode) {
            Err(_) => seq!["SignedInfo canonicalization failed"@],
            Ok(c) => match cert {
                None => Seq::empty(),
                Some(cd) => match signature_check_of(cd, method, c, sv) {
                    SigCheckView::NoKey => seq!["cannot extract a supported public key from the signer certificate"@],
                    SigCheckView::Verified(ok) => if ok {
                        Seq::empty()
                    } else {
                        seq!["signature value does not verify"@]
                    },
                    SigCheckView::Failed(e) => seq!["signature verification failed: "@ + e],
                    SigCheckView::BadMethod(e) => seq!["signature method: "@ + e],
                },
            },
        },
    }
}

/// What the core checks hand back besides their errors.
pub struct CoreView {
    pub cert_der: Option<Seq<u8>>,
    pub extra_certs: Seq<Seq<u8>>,
    pub sp_node: Option<usize>,
}

pub open spec fn empty_core() -> CoreView {
    CoreView { cert_der: None, extra_certs: Seq::empty(), sp_node: None }
}

/// The errors and the outcome of the core checks of signature `sig`.
pub open spec fn core_checks(
    t: XmlTree, ids: Map<Seq<char>, usize>, sig: int, files: Seq<DataObject>,
) -> (Seq<Seq<char>>, CoreView) {
    match t.first_named_child(sig, ns::DSIG@, "SignedInfo"@) {
        None => (seq!["missing SignedInfo"@], empty_core()),
        Some(si) => {
            let c14n_uri = algorithm_of(t, si as int, "CanonicalizationMethod"@);
            match c14n_mode_of(c14n_uri) {
                None => (seq!["unsupported canonicalization method: "@ + c14n_uri], empty_core()),
                Some(mode) => {
                    let method = algorithm_of(t, si as int, "SignatureMethod"@);
                    if !allowed_signature(method) {
                        (seq!["unsupported signature method: "@ + method], empty_core())
                    } else {
                        let refs = t.named_children(si as int, ns::DSIG@, "Reference"@);
                        let e0: Seq<Seq<char>> = if refs.len() == 0 {
                            seq!["SignedInfo has no references"@]
                        } else {
                            Seq::empty()
                        };
                        let st = references_checked(t, ids, sig, files, refs);
                        let e1: Seq<Seq<char>> = if st.sp_count != 1 {
                            seq![msg_sp_count(st.sp_count)]
                        } else {
                            Seq::empty()
                        };
                        let e2 = uncovered_errors(files, st.covered);
                        let ks = key_info_of(t, sig);
                        let e3: Seq<Seq<char>> = if ks.cert is None {
                            ks.errors.push("KeyInfo contains no X509Certificate"@)
                        } else {
                            ks.errors
                        };
                        let e4 = signature_errors(t, sig, si, mode, method, ks.cert);
                        (e0 + st.errors + e1 + e2 + e3 + e4,
                         CoreView { cert_der: ks.cert, extra_certs: ks.extra, sp_node: st.sp_node })
                    }
                },
            }
        },
    }
}


// ------------------------------------------------------------- execution

pub open spec fn texts(v: Seq<String>) -> Seq<Seq<char>> {
    v.map_values(|x: String| x@)
}

pub open spec fn names(v: Seq<&str>) -> Seq<Seq<char>> {
    v.map_values(|x: &str| x@)
}

pub open spec fn opt_bytes(o: Option<Vec<u8>>) -> Option<Seq<u8>> {
    match o {
        Some(v) => Some(v@),
        None => None,
    }
}

proof fn lemma_texts_push(v: Seq<String>, x: String)
    ensures
        texts(v.push(x)) == texts(v).push(x@),
{
    assert(texts(v.push(x)) =~= texts(v).push(x@));
}

/// Append `m` to `errors`.
fn push_error(errors: &mut Vec<String>, m: String)
    ensures
        texts(final(errors)@) == texts(old(errors)@).push(m@),
{
    proof {
        lemma_texts_push(errors@, m);
    }
    errors.push(m);
}

pub(crate) fn is_allowed_digest(uri: &str) -> (r: bool)
    ensures
        r == allowed_digest(uri@),
{
    str_equal(uri, ns::SHA256) || str_equal(uri, ns::SHA384) || str_equal(uri, ns::SHA512)
}

fn is_allowed_signature(uri: &str) -> (r: bool)
    ensures
        r == allowed_signature(uri@),
{
    str_equal(uri, ns::RSA_SHA256) || str_equal(uri, ns::RSA_SHA384) || str_equal(uri, ns::RSA_SHA512)
        || str_equal(uri, ns::ECDSA_SHA256) || str_equal(uri, ns::ECDSA_SHA384) || str_equal(uri, ns::ECDSA_SHA512)
}

fn attr_or_empty(t: &XmlTree, id: usize, name: &str) -> (r: String)
    ensures
        r@ == or_empty(t.attribute(id as int, name@)),
{
    match t.attr(id, name) {
        Some(v) => v.to_owned(),
        None => String::new(),
    }
}

fn algorithm(t: &XmlTree, parent: usize, local: &str) -> (r: String)
    ensures
        r@ == algorithm_of(*t, parent as int, local@),
{
    match t.child(parent, ns::DSIG, local) {
        Some(n) => attr_or_empty(t, n, "Algorithm"),
        None => String::new(),
    }
}

fn read_base64(t: &XmlTree, node: usize) -> (r: Result<Vec<u8>, String>)
    requires
        t.wf(),
    ensures
        backend::bytes_or_text_view(r) == base64_decoded(without_breaks(t.trimmed_text(node as int))),
{
    let txt = t.text(node);
    let compact = strip_breaks(txt.as_str());
    backend::base64_decode(compact.as_str())
}

fn content_base64(t: &XmlTree, node: usize) -> (r: Option<Vec<u8>>)
    requires
        t.wf(),
    ensures
        opt_bytes(r) == base64_content(*t, node as int),
{
    match read_base64(t, node) {
        Ok(b) => Some(b),
        Err(_) => None,
    }
}

fn digest_value(t: &XmlTree, r: usize) -> (v: Option<Vec<u8>>)
    requires
        t.wf(),
    ensures
        opt_bytes(v) == digest_value_of(*t, r as int),
{
    match t.child(r, ns::DSIG, "DigestValue") {
        Some(n) => content_base64(t, n),
        None => None,
    }
}

fn transforms(t: &XmlTree, r: usize) -> (v: Vec<String>)
    ensures
        texts(v@) == transforms_of(*t, r as int),
{
    let mut out: Vec<String> = Vec::new();
    match t.child(r, ns::DSIG, "Transforms") {
        Some(tr) => {
            let list = t.children(tr, ns::DSIG, "Transform");
            let ghost want = t.named_children(tr as int, ns::DSIG@, "Transform"@).map_values(
                |n: usize| or_empty(t.attribute(n as int, "Algorithm"@)),
            );
            let mut k: usize = 0;
            while k < list.len()
                invariant
                    k <= list@.len(),
                    list@ == t.named_children(tr as int, ns::DSIG@, "Transform"@),
                    want == list@.map_values(|n: usize| or_empty(t.attribute(n as int, "Algorithm"@))),
                    texts(out@) =~= want.take(k as int),
                decreases list.len() - k,
            {
                let a = attr_or_empty(t, list[k], "Algorithm");
                push_error(&mut out, a);
                k += 1;
                assert(texts(out@) =~= want.take(k as int));
            }
            assert(want.take(list@.len() as int) =~= want);
            out
        },
        None => {
            assert(texts(out@) =~= Seq::<Seq<char>>::empty());
            out
        },
    }
}

fn find_file(files: &[DataObject<'_>], name: &str) -> (r: Option<usize>)
    ensures
        match r {
            Some(i) => first_file(files@, name@) == Some(i as int) && i < files@.len(),
            None => first_file(files@, name@) is None,
        },
{
    let mut k: usize = 0;
    assert(files@.skip(0) =~= files@);
    while k < files.len()
        invariant
            k <= files@.len(),
            first_file(files@, name@) == match first_file(files@.skip(k as int), name@) {
                Some(i) => Some(i + k),
                None => None,
            },
        decreases files.len() - k,
    {
        assert(files@.skip(k as int).drop_first() =~= files@.skip(k + 1));
        assert(files@.skip(k as int)[0] == files@[k as int]);
        if str_equal(files[k].name, name) {
            return Some(k);
        }
        k += 1;
    }
    assert(files@.skip(k as int) =~= Seq::<DataObject>::empty());
    None
}

/// Whether two byte strings are equal.
pub fn bytes_equal(a: &[u8], b: &[u8]) -> (r: bool)
    ensures
        r <==> a@ =~= b@,
{
    if a.len() != b.len() {
        return false;
    }
    let mut k: usize = 0;
    while k < a.len()
        invariant
            k <= a@.len(),
            a@.len() == b@.len(),
            forall|j: int| 0 <= j < k ==> a@[j] == b@[j],
        decreases a.len() - k,
    {
        if a[k] != b[k] {
            return false;
        }
        k += 1;
    }
    true
}

fn transform_mode(uri: &str, list: &Vec<String>) -> (r: Result<C14nMode, String>)
    ensures
        match r {
            Ok(m) => sp_mode(uri@, texts(list@)) == Ok::<C14nMode, Seq<char>>(m),
            Err(e) => sp_mode(uri@, texts(list@)) == Err::<C14nMode, Seq<char>>(e@),
        },
{
    if list.len() == 0 {
        Ok(C14nMode::Inclusive)
    } else if list.len() == 1 {
        match backend::c14n_mode_from_uri(list[0].as_str()) {
            Some(m) => Ok(m),
            None => Err(join4("reference ", uri, ": unsupported transform: ", list[0].as_str())),
        }
    } else {
        let n = decimal(list.len());
        Err(join4("reference ", uri, ": unexpected transform chain of length ", n.as_str()))
    }
}

/// What the reference checks have gathered so far.
struct RefAcc<'a> {
    errors: Vec<String>,
    covered: Vec<&'a str>,
    sp_count: usize,
    sp_node: Option<usize>,
}

impl<'a> RefAcc<'a> {
    spec fn view(&self) -> RefState {
        RefState {
            errors: texts(self.errors@),
            covered: names(self.covered@),
            sp_count: self.sp_count as nat,
            sp_node: self.sp_node,
        }
    }

    fn err(&mut self, m: String)
        ensures
            final(self).view() == old(self).view().err(m@),
            final(self).sp_count == old(self).sp_count,
    {
        push_error(&mut self.errors, m);
    }
}

fn check_sp_reference(
    t: &XmlTree, ids: &IdMap, sig: usize, r: usize, uri: &str, digest_uri: &str, expected: &Vec<u8>,
    acc: &mut RefAcc<'_>,
)
    requires
        t.wf(),
        is_fragment_uri(uri@),
        old(acc).sp_count < usize::MAX,
    ensures
        final(acc).view() == sp_reference_step(*t, ids@, sig as int, old(acc).view(), r as int, uri@, digest_uri@, expected@),
        final(acc).sp_count <= old(acc).sp_count + 1,
{
    let ref_type = attr_or_empty(t, r, "Type");
    if !str_equal(ref_type.as_str(), ns::TYPE_SIGNED_PROPERTIES) {
        acc.err(join3("same-document reference ", uri, " is not a SignedProperties reference"));
        return;
    }
    acc.sp_count = acc.sp_count + 1;
    let fragment = uri.substring_char(1, uri.unicode_len());
    let target = match ids.get(fragment) {
        Some(n) => n,
        None => {
            acc.err(join3("reference ", uri, ": no element with that Id"));
            return;
        },
    };
    if !t.is_element(target, ns::XADES, "SignedProperties") {
        acc.err(join3("reference ", uri, " does not target SignedProperties"));
        return;
    }
    if !t.is_within(sig, target) {
        acc.err(join3("reference ", uri, " targets SignedProperties outside this signature"));
        return;
    }
    let list = transforms(t, r);
    let mode = match transform_mode(uri, &list) {
        Ok(m) => m,
        Err(m) => {
            acc.err(m);
            return;
        },
    };
    let c14n = match backend::canonicalize_node(t.source.as_str(), target, mode) {
        Ok(c) => c,
        Err(_) => {
            acc.err(join3("reference ", uri, ": canonicalization failed"));
            return;
        },
    };
    match backend::digest(digest_uri, c14n.as_slice()) {
        Ok(actual) => {
            if bytes_equal(actual.as_slice(), expected.as_slice()) {
                acc.sp_node = Some(target);
            } else {
                acc.err("SignedProperties digest mismatch".to_owned());
            }
        },
        Err(e) => acc.err(join4("reference ", uri, ": digest failed: ", e.as_str())),
    }
}

fn check_file_reference<'a>(
    t: &XmlTree, files: &[DataObject<'a>], r: usize, uri: &str, digest_uri: &str, expected: &Vec<u8>,
    acc: &mut RefAcc<'a>,
)
    ensures
        final(acc).view() == file_reference_step(*t, files@, old(acc).view(), r as int, uri@, digest_uri@, expected@),
        final(acc).sp_count == old(acc).sp_count,
{
    let list = transforms(t, r);
    if list.len() != 0 {
        acc.err(join3("data file reference ", uri, " must not have transforms"));
        return;
    }
    let name = match backend::percent_decode(uri) {
        Some(n) => n,
        None => {
            acc.err(join2("reference URI is not valid UTF-8: ", uri));
            return;
        },
    };
    let i = match find_file(files, name.as_str()) {
        Some(i) => i,
        None => {
            acc.err(join2("signed file is missing from container: ", name.as_str()));
            return;
        },
    };
    let file = files[i];
    match backend::digest(digest_uri, file.content) {
        Ok(actual) => {
            if bytes_equal(actual.as_slice(), expected.as_slice()) {
                let ghost before = acc.covered@;
                acc.covered.push(file.name);
                assert(names(acc.covered@) =~= names(before).push(file.name@));
            } else {
                acc.err(join2("digest mismatch for data file: ", name.as_str()));
            }
        },
        Err(e) => acc.err(join4("reference ", uri, ": digest failed: ", e.as_str())),
    }
}

fn is_fragment(uri: &str) -> (r: bool)
    ensures
        r == is_fragment_uri(uri@),
{
    uri.unicode_len() > 0 && uri.get_char(0) == '#'
}

fn check_reference<'a>(
    t: &XmlTree, ids: &IdMap, sig: usize, files: &[DataObject<'a>], r: usize, acc: &mut RefAcc<'a>,
)
    requires
        t.wf(),
        old(acc).sp_count < usize::MAX,
    ensures
        final(acc).view() == reference_step(*t, ids@, sig as int, files@, old(acc).view(), r as int),
        final(acc).sp_count <= old(acc).sp_count + 1,
{
    let uri = attr_or_empty(t, r, "URI");
    let digest_uri = algorithm(t, r, "DigestMethod");
    if !is_allowed_digest(digest_uri.as_str()) {
        acc.err(join4("reference ", uri.as_str(), ": unsupported digest method: ", digest_uri.as_str()));
        return;
    }
    let expected = match digest_value(t, r) {
        Some(v) => v,
        None => {
            acc.err(join3("reference ", uri.as_str(), ": missing or malformed DigestValue"));
            return;
        },
    };
    if is_fragment(uri.as_str()) {
        check_sp_reference(t, ids, sig, r, uri.as_str(), digest_uri.as_str(), &expected, acc);
    } else {
        check_file_reference(t, files, r, uri.as_str(), digest_uri.as_str(), &expected, acc);
    }
}


fn references_run<'a>(
    t: &XmlTree, ids: &IdMap, sig: usize, files: &[DataObject<'a>], refs: &Vec<usize>,
) -> (acc: RefAcc<'a>)
    requires
        t.wf(),
    ensures
        acc.view() == references_checked(*t, ids@, sig as int, files@, refs@),
{
    let mut acc = RefAcc { errors: Vec::new(), covered: Vec::new(), sp_count: 0, sp_node: None };
    proof {
        assert(acc.view().errors =~= Seq::<Seq<char>>::empty());
        assert(acc.view().covered =~= Seq::<Seq<char>>::empty());
        assert(refs@.take(0) =~= Seq::<usize>::empty());
    }
    let mut k: usize = 0;
    while k < refs.len()
        invariant
            t.wf(),
            k <= refs@.len(),
            acc.sp_count <= k,
            acc.view() == references_checked(*t, ids@, sig as int, files@, refs@.take(k as int)),
        decreases refs.len() - k,
    {
        proof {
            assert(refs@.take(k + 1).drop_last() =~= refs@.take(k as int));
        }
        check_reference(t, ids, sig, files, refs[k], &mut acc);
        k += 1;
    }
    assert(refs@.take(refs@.len() as int) =~= refs@);
    acc
}

fn covered_contains(covered: &Vec<&str>, name: &str) -> (r: bool)
    ensures
        r == names(covered@).contains(name@),
{
    let mut k: usize = 0;
    while k < covered.len()
        invariant
            k <= covered@.len(),
            forall|j: int| 0 <= j < k ==> names(covered@)[j] != name@,
        decreases covered.len() - k,
    {
        if str_equal(covered[k], name) {
            assert(names(covered@)[k as int] == name@);
            return true;
        }
        k += 1;
    }
    false
}

fn uncovered_run(files: &[DataObject<'_>], covered: &Vec<&str>) -> (r: Vec<String>)
    ensures
        texts(r@) == uncovered_errors(files@, names(covered@)),
{
    let mut out: Vec<String> = Vec::new();
    let mut k: usize = 0;
    assert(texts(out@) =~= uncovered_errors(files@.take(0), names(covered@)));
    while k < files.len()
        invariant
            k <= files@.len(),
            texts(out@) == uncovered_errors(files@.take(k as int), names(covered@)),
        decreases files.len() - k,
    {
        proof {
            assert(files@.take(k + 1).drop_last() =~= files@.take(k as int));
        }
        if !covered_contains(covered, files[k].name) {
            push_error(&mut out, join2("data file is not covered by the signature: ", files[k].name));
        }
        k += 1;
    }
    assert(files@.take(files@.len() as int) =~= files@);
    out
}

pub open spec fn blobs(v: Seq<Vec<u8>>) -> Seq<Seq<u8>> {
    v.map_values(|x: Vec<u8>| x@)
}

/// The certificates found in `ds:KeyInfo` so far.
struct KeyAcc {
    cert: Option<Vec<u8>>,
    extra: Vec<Vec<u8>>,
    errors: Vec<String>,
}

impl KeyAcc {
    spec fn view(&self) -> KeyState {
        KeyState { cert: opt_bytes(self.cert), extra: blobs(self.extra@), errors: texts(self.errors@) }
    }
}

fn key_info_run(t: &XmlTree, sig: usize) -> (acc: KeyAcc)
    requires
        t.wf(),
    ensures
        acc.view() == key_info_of(*t, sig as int),
{
    let mut acc = KeyAcc { cert: None, extra: Vec::new(), errors: Vec::new() };
    proof {
        assert(acc.view().extra =~= Seq::<Seq<u8>>::empty());
        assert(acc.view().errors =~= Seq::<Seq<char>>::empty());
    }
    let ki = match t.child(sig, ns::DSIG, "KeyInfo") {
        Some(ki) => ki,
        None => return acc,
    };
    let nodes = t.descendants(ki, ns::DSIG, "X509Certificate");
    assert(nodes@.take(0) =~= Seq::<usize>::empty());
    let mut k: usize = 0;
    while k < nodes.len()
        invariant
            t.wf(),
            k <= nodes@.len(),
            acc.view() == keys_read(*t, nodes@.take(k as int)),
        decreases nodes.len() - k,
    {
        proof {
            assert(nodes@.take(k + 1).drop_last() =~= nodes@.take(k as int));
        }
        match read_base64(t, nodes[k]) {
            Ok(der) => {
                if acc.cert.is_none() {
                    acc.cert = Some(der);
                } else {
                    let ghost before = acc.extra@;
                    acc.extra.push(der);
                    assert(blobs(acc.extra@) =~= blobs(before).push(der@));
                }
            },
            Err(e) => push_error(&mut acc.errors, join2("KeyInfo certificate is not valid base64: ", e.as_str())),
        }
        k += 1;
    }
    assert(nodes@.take(nodes@.len() as int) =~= nodes@);
    acc
}

fn signature_value(t: &XmlTree, sig: usize) -> (r: Option<Vec<u8>>)
    requires
        t.wf(),
    ensures
        opt_bytes(r) == signature_value_of(*t, sig as int),
{
    match t.child(sig, ns::DSIG, "SignatureValue") {
        Some(n) => match content_base64(t, n) {
            Some(v) => if v.len() > 0 { Some(v) } else { None },
            None => None,
        },
        None => None,
    }
}

fn single_error(m: String) -> (r: Vec<String>)
    ensures
        texts(r@) == seq![m@],
{
    let mut v: Vec<String> = Vec::new();
    push_error(&mut v, m);
    assert(texts(v@) =~= seq![m@]);
    v
}

fn no_errors() -> (r: Vec<String>)
    ensures
        texts(r@) == Seq::<Seq<char>>::empty(),
{
    let v: Vec<String> = Vec::new();
    assert(texts(v@) =~= Seq::<Seq<char>>::empty());
    v
}

fn signature_run(
    t: &XmlTree, sig: usize, signed_info: usize, mode: C14nMode, method: &str, cert: &Option<Vec<u8>>,
) -> (r: Vec<String>)
    requires
        t.wf(),
    ensures
        texts(r@) == signature_errors(*t, sig as int, signed_info, mode, method@, opt_bytes(*cert)),
{
    let sv = match signature_value(t, sig) {
        Some(v) => v,
        None => return single_error("missing or malformed SignatureValue".to_owned()),
    };
    let c14n = match backend::canonicalize_node(t.source.as_str(), signed_info, mode) {
        Ok(c) => c,
        Err(_) => return single_error("SignedInfo canonicalization failed".to_owned()),
    };
    let cd = match cert {
        Some(cd) => cd,
        None => return no_errors(),
    };
    match backend::check_signature(cd.as_slice(), method, c14n.as_slice(), sv.as_slice()) {
        SigCheck::NoKey => single_error("cannot extract a supported public key from the signer certificate".to_owned()),
        SigCheck::Verified(ok) => if ok {
            no_errors()
        } else {
            single_error("signature value does not verify".to_owned())
        },
        SigCheck::Failed(e) => single_error(join2("signature verification failed: ", e.as_str())),
        SigCheck::BadMethod(e) => single_error(join2("signature method: ", e.as_str())),
    }
}

/// What the core checks hand back besides their errors.
pub struct CoreOutcome {
    /// Signer certificate (first in KeyInfo).
    pub cert_der: Option<Vec<u8>>,
    /// Certificate chain (additional certs in KeyInfo).
    pub extra_certs: Vec<Vec<u8>>,
    /// The resolved `xades:SignedProperties` element.
    pub sp_node: Option<usize>,
}

impl CoreOutcome {
    pub open spec fn view(&self) -> CoreView {
        CoreView { cert_der: opt_bytes(self.cert_der), extra_certs: blobs(self.extra_certs@), sp_node: self.sp_node }
    }
}

fn empty_outcome() -> (r: CoreOutcome)
    ensures
        r.view() == empty_core(),
{
    let r = CoreOutcome { cert_der: None, extra_certs: Vec::new(), sp_node: None };
    assert(r.view().extra_certs =~= Seq::<Seq<u8>>::empty());
    r
}

/// Append all of `more` to `errors`.
fn append_errors(errors: &mut Vec<String>, more: Vec<String>)
    ensures
        texts(final(errors)@) == texts(old(errors)@) + texts(more@),
{
    let mut k: usize = 0;
    let ghost start = errors@;
    while k < more.len()
        invariant
            k <= more@.len(),
            texts(errors@) == texts(start) + texts(more@).take(k as int),
        decreases more.len() - k,
    {
        push_error(errors, more[k].clone());
        k += 1;
        assert(texts(start) + texts(more@).take(k as int) =~= (texts(start) + texts(more@).take(k - 1)).push(more@[k - 1]@));
    }
    assert(texts(more@).take(more@.len() as int) =~= texts(more@));
}

fn core_run(t: &XmlTree, ids: &IdMap, sig: usize, files: &[DataObject<'_>]) -> (r: (Vec<String>, CoreOutcome))
    requires
        t.wf(),
    ensures
        texts(r.0@) == core_checks(*t, ids@, sig as int, files@).0,
        r.1.view() == core_checks(*t, ids@, sig as int, files@).1,
{
    let signed_info = match t.child(sig, ns::DSIG, "SignedInfo") {
        Some(si) => si,
        None => return (single_error("missing SignedInfo".to_owned()), empty_outcome()),
    };
    let c14n_uri = algorithm(t, signed_info, "CanonicalizationMethod");
    let mode = match backend::c14n_mode_from_uri(c14n_uri.as_str()) {
        Some(m) => m,
        None => return (
            single_error(join2("unsupported canonicalization method: ", c14n_uri.as_str())),
            empty_outcome(),
        ),
    };
    let method = algorithm(t, signed_info, "SignatureMethod");
    if !is_allowed_signature(method.as_str()) {
        return (single_error(join2("unsupported signature method: ", method.as_str())), empty_outcome());
    }
    let refs = t.children(signed_info, ns::DSIG, "Reference");
    let mut errs = if refs.len() == 0 {
        single_error("SignedInfo has no references".to_owned())
    } else {
        no_errors()
    };
    let acc = references_run(t, ids, sig, files, &refs);
    append_errors(&mut errs, acc.errors);
    if acc.sp_count != 1 {
        push_error(&mut errs, join2("expected exactly one SignedProperties reference, found ", decimal(acc.sp_count).as_str()));
    }
    append_errors(&mut errs, uncovered_run(files, &acc.covered));
    let keys = key_info_run(t, sig);
    append_errors(&mut errs, keys.errors);
    if keys.cert.is_none() {
        push_error(&mut errs, "KeyInfo contains no X509Certificate".to_owned());
    }
    append_errors(&mut errs, signature_run(t, sig, signed_info, mode, method.as_str(), &keys.cert));
    let outcome = CoreOutcome { cert_der: keys.cert, extra_certs: keys.extra, sp_node: acc.sp_node };
    proof {
        let ghost spec_r = core_checks(*t, ids@, sig as int, files@);
        assert(texts(errs@) =~= spec_r.0);
    }
    (errs, outcome)
}

/// Check the references, the signer certificate and the signature value of
/// signature `sig_node`. Each problem found is appended to `errors`; what
/// was resolved along the way is returned.
pub fn verify_core(
    t: &XmlTree, id_map: &IdMap, sig_node: usize, data_files: &[DataObject<'_>], errors: &mut Vec<String>,
) -> (outcome: CoreOutcome)
    requires
        t.wf(),
    ensures
        texts(final(errors)@) == texts(old(errors)@) + core_checks(*t, id_map@, sig_node as int, data_files@).0,
        outcome.view() == core_checks(*t, id_map@, sig_node as int, data_files@).1,
{
    let (more, outcome) = core_run(t, id_map, sig_node, data_files);
    append_errors(errors, more);
    outcome
}


// ------------------------------------------------------------------ laws

/// Reference `r` names the data object `name` and its DigestValue is the
/// digest of the content of the first data object so named.
pub open spec fn covers_file(t: XmlTree, files: Seq<DataObject>, r: int, name: Seq<char>) -> bool {
    let uri = or_empty(t.attribute(r, "URI"@));
    let digest_uri = algorithm_of(t, r, "DigestMethod"@);
    &&& percent_decoded(uri) == Some(name)
    &&& first_file(files, name) matches Some(i)
    &&& digest_value_of(t, r) matches Some(expected)
    &&& digest_of(digest_uri, files[i].content@) == Ok::<Seq<u8>, Seq<char>>(expected)
}

/// Some reference among `refs` covers the data object `name`.
pub open spec fn has_covering_ref(t: XmlTree, files: Seq<DataObject>, refs: Seq<usize>, name: Seq<char>) -> bool {
    exists|j: int| 0 <= j < refs.len() && #[trigger] covers_file(t, files, refs[j] as int, name)
}

/// `x` is a SignedProperties element inside signature `sig`.
pub open spec fn is_signed_properties_of(t: XmlTree, sig: int, x: usize) -> bool {
    t.element_name_is(x as int, ns::XADES@, "SignedProperties"@) && t.within(sig, x as int)
}

proof fn lemma_first_file(files: Seq<DataObject>, name: Seq<char>)
    ensures
        first_file(files, name) matches Some(i) ==> 0 <= i < files.len() && files[i].name@ == name,
    decreases files.len(),
{
    if files.len() > 0 && files[0].name@ != name {
        lemma_first_file(files.drop_first(), name);
    }
}

/// Reference `r` is a SignedProperties reference to the element `x`: its
/// URI is `#` and an Id that names `x`, its Type is the SignedProperties
/// type, and the digest of `x` canonicalized as its transforms select, under
/// its (accepted) digest method, is its DigestValue.
pub open spec fn sp_reference_verifies(t: XmlTree, ids: Map<Seq<char>, usize>, r: int, x: usize) -> bool {
    let uri = or_empty(t.attribute(r, "URI"@));
    let digest_uri = algorithm_of(t, r, "DigestMethod"@);
    &&& is_fragment_uri(uri)
    &&& or_empty(t.attribute(r, "Type"@)) == ns::TYPE_SIGNED_PROPERTIES@
    &&& ids.contains_key(uri.skip(1)) && ids[uri.skip(1)] == x
    &&& allowed_digest(digest_uri)
    &&& sp_mode(uri, transforms_of(t, r)) matches Ok(mode)
    &&& canonical_form(t.source@, x, mode) matches Ok(c)
    &&& digest_value_of(t, r) matches Some(expected)
    &&& digest_of(digest_uri, c) == Ok::<Seq<u8>, Seq<char>>(expected)
}

/// Some reference among `refs` is a SignedProperties reference to `x`.
pub open spec fn has_sp_reference(t: XmlTree, ids: Map<Seq<char>, usize>, refs: Seq<usize>, x: usize) -> bool {
    exists|j: int| 0 <= j < refs.len() && #[trigger] sp_reference_verifies(t, ids, refs[j] as int, x)
}

/// What every prefix of the reference checks keeps.
pub open spec fn ref_state_ok(
    t: XmlTree, ids: Map<Seq<char>, usize>, sig: int, files: Seq<DataObject>, refs: Seq<usize>, st: RefState,
) -> bool {
    &&& forall|k: int| 0 <= k < st.covered.len() ==> #[trigger] has_covering_ref(t, files, refs, st.covered[k])
    &&& st.sp_node matches Some(x) ==> is_signed_properties_of(t, sig, x) && has_sp_reference(t, ids, refs, x)
    &&& (st.sp_count > 0 && st.errors.len() == 0) ==> st.sp_node is Some
}

proof fn lemma_reference_step(
    t: XmlTree, ids: Map<Seq<char>, usize>, sig: int, files: Seq<DataObject>, refs: Seq<usize>, st: RefState, r: usize,
)
    requires
        ref_state_ok(t, ids, sig, files, refs, st),
    ensures
        ref_state_ok(t, ids, sig, files, refs.push(r), reference_step(t, ids, sig, files, st, r as int)),
        reference_step(t, ids, sig, files, st, r as int).errors.len() >= st.errors.len(),
{
    let st2 = reference_step(t, ids, sig, files, st, r as int);
    let refs2 = refs.push(r);
    assert forall|k: int| 0 <= k < st2.covered.len() implies #[trigger] has_covering_ref(t, files, refs2, st2.covered[k]) by {
        if k < st.covered.len() && st2.covered[k] == st.covered[k] {
            assert(has_covering_ref(t, files, refs, st.covered[k]));
            let j = choose|j: int| 0 <= j < refs.len() && #[trigger] covers_file(t, files, refs[j] as int, st.covered[k]);
            assert(refs2[j] == refs[j]);
            assert(covers_file(t, files, refs2[j] as int, st2.covered[k]));
        } else {
            let uri = or_empty(t.attribute(r as int, "URI"@));
            let name = percent_decoded(uri).unwrap();
            lemma_first_file(files, name);
            assert(covers_file(t, files, refs2[refs.len() as int] as int, st2.covered[k]));
            assert(has_covering_ref(t, files, refs2, st2.covered[k]));
        }
    }
    if st2.sp_node is Some {
        let x = st2.sp_node.unwrap();
        if st.sp_node == Some(x) {
            let j = choose|j: int| 0 <= j < refs.len() && #[trigger] sp_reference_verifies(t, ids, refs[j] as int, x);
            assert(refs2[j] == refs[j]);
            assert(sp_reference_verifies(t, ids, refs2[j] as int, x));
        } else {
            assert(refs2[refs.len() as int] == r);
            assert(sp_reference_verifies(t, ids, refs2[refs.len() as int] as int, x));
        }
        assert(has_sp_reference(t, ids, refs2, x));
    }
    assert(ref_state_ok(t, ids, sig, files, refs2, st2));
}

proof fn lemma_references_checked(
    t: XmlTree, ids: Map<Seq<char>, usize>, sig: int, files: Seq<DataObject>, refs: Seq<usize>,
)
    ensures
        ref_state_ok(t, ids, sig, files, refs, references_checked(t, ids, sig, files, refs)),
    decreases refs.len(),
{
    if refs.len() > 0 {
        lemma_references_checked(t, ids, sig, files, refs.drop_last());
        let prev = references_checked(t, ids, sig, files, refs.drop_last());
        lemma_reference_step(t, ids, sig, files, refs.drop_last(), prev, refs.last());
        assert(refs.drop_last().push(refs.last()) =~= refs);
    }
}

proof fn lemma_uncovered(files: Seq<DataObject>, covered: Seq<Seq<char>>)
    requires
        uncovered_errors(files, covered).len() == 0,
    ensures
        forall|i: int| 0 <= i < files.len() ==> covered.contains(#[trigger] files[i].name@),
    decreases files.len(),
{
    if files.len() > 0 {
        let rest = uncovered_errors(files.drop_last(), covered);
        if !covered.contains(files.last().name@) {
            assert(uncovered_errors(files, covered).len() == rest.len() + 1);
        }
        lemma_uncovered(files.drop_last(), covered);
        assert forall|i: int| 0 <= i < files.len() implies covered.contains(#[trigger] files[i].name@) by {
            if i < files.len() - 1 {
                assert(files.drop_last()[i] == files[i]);
            }
        }
    }
}

/// When the core checks of a signature report no problem: every data object
/// is covered by a reference whose DigestValue matches its content, the
/// SignedProperties reference resolved to a SignedProperties element inside
/// the signature, a signer certificate was found, and the SignatureValue
/// verifies with that certificate over the canonical SignedInfo.
pub proof fn lemma_no_errors_means_verified(
    t: XmlTree, ids: Map<Seq<char>, usize>, sig: int, files: Seq<DataObject>,
)
    requires
        core_checks(t, ids, sig, files).0.len() == 0,
    ensures
        ({
            let out = core_checks(t, ids, sig, files).1;
            let si = t.first_named_child(sig, ns::DSIG@, "SignedInfo"@).unwrap();
            let refs = t.named_children(si as int, ns::DSIG@, "Reference"@);
            let mode = c14n_mode_of(algorithm_of(t, si as int, "CanonicalizationMethod"@)).unwrap();
            let method = algorithm_of(t, si as int, "SignatureMethod"@);
            &&& t.first_named_child(sig, ns::DSIG@, "SignedInfo"@) is Some
            &&& allowed_signature(method)
            &&& forall|i: int| 0 <= i < files.len() ==> #[trigger] has_covering_ref(t, files, refs, files[i].name@)
            &&& out.sp_node matches Some(x) && is_signed_properties_of(t, sig, x)
            &&& out.cert_der matches Some(cert)
            &&& signature_value_of(t, sig) matches Some(sv)
            &&& canonical_form(t.source@, si, mode) matches Ok(c)
            &&& signature_check_of(cert, method, c, sv) == SigCheckView::Verified(true)
        }),
{
    let si = t.first_named_child(sig, ns::DSIG@, "SignedInfo"@).unwrap();
    let refs = t.named_children(si as int, ns::DSIG@, "Reference"@);
    let st = references_checked(t, ids, sig, files, refs);
    lemma_references_checked(t, ids, sig, files, refs);
    let e2 = uncovered_errors(files, st.covered);
    assert(e2.len() == 0);
    lemma_uncovered(files, st.covered);
    assert forall|i: int| 0 <= i < files.len() implies #[trigger] has_covering_ref(t, files, refs, files[i].name@) by {
        assert(st.covered.contains(files[i].name@));
        let k = choose|k: int| 0 <= k < st.covered.len() && st.covered[k] == files[i].name@;
        assert(has_covering_ref(t, files, refs, st.covered[k]));
    }
}

/// The SignedProperties element that the core checks report was reached
/// through a reference of the signature's SignedInfo: the reference's URI is
/// `#` and an Id that names the element, its Type is the SignedProperties
/// type, and its DigestValue is the digest of the element canonicalized as
/// its transforms select; the element is a `xades:SignedProperties` inside
/// the signature.
pub proof fn lemma_signed_properties_verified(
    t: XmlTree, ids: Map<Seq<char>, usize>, sig: int, files: Seq<DataObject>,
)
    ensures
        core_checks(t, ids, sig, files).1.sp_node matches Some(x) ==> {
            &&& t.first_named_child(sig, ns::DSIG@, "SignedInfo"@) matches Some(si)
            &&& has_sp_reference(t, ids, t.named_children(si as int, ns::DSIG@, "Reference"@), x)
            &&& is_signed_properties_of(t, sig, x)
        },
{
    if let Some(si) = t.first_named_child(sig, ns::DSIG@, "SignedInfo"@) {
        let refs = t.named_children(si as int, ns::DSIG@, "Reference"@);
        lemma_references_checked(t, ids, sig, files, refs);
    }
}

/// The certificates that the elements `nodes` hold, in order: the base64
/// content of each element that has one; elements whose text does not
/// decode are passed over.
pub open spec fn decodable_certificates(t: XmlTree, nodes: Seq<usize>) -> Seq<Seq<u8>>
    decreases nodes.len(),
{
    if nodes.len() == 0 {
        Seq::empty()
    } else {
        let before = decodable_certificates(t, nodes.drop_last());
        match base64_content(t, nodes.last() as int) {
            Some(c) => before.push(c),
            None => before,
        }
    }
}

/// The certificates of the `ds:X509Certificate` elements under the
/// signature's first `ds:KeyInfo`, in document order.
pub open spec fn key_info_certificates(t: XmlTree, sig: int) -> Seq<Seq<u8>> {
    match t.first_named_child(sig, ns::DSIG@, "KeyInfo"@) {
        Some(ki) => decodable_certificates(t, t.named_descendants(ki as int, ns::DSIG@, "X509Certificate"@)),
        None => Seq::empty(),
    }
}

proof fn lemma_keys_read_certificates(t: XmlTree, nodes: Seq<usize>)
    ensures
        ({
            let certs = decodable_certificates(t, nodes);
            let ks = keys_read(t, nodes);
            &&& certs.len() == 0 ==> ks.cert is None && ks.extra == Seq::<Seq<u8>>::empty()
            &&& certs.len() > 0 ==> ks.cert == Some(certs[0]) && ks.extra == certs.drop_first()
        }),
    decreases nodes.len(),
{
    if nodes.len() > 0 {
        lemma_keys_read_certificates(t, nodes.drop_last());
        let before = decodable_certificates(t, nodes.drop_last());
        if let Some(c) = base64_content(t, nodes.last() as int) {
            if before.len() > 0 {
                assert(before.push(c).drop_first() =~= before.drop_first().push(c));
            } else {
                assert(before.push(c).drop_first() =~= Seq::<Seq<u8>>::empty());
            }
        }
    }
}

proof fn lemma_first_decodable(t: XmlTree, nodes: Seq<usize>)
    ensures
        decodable_certificates(t, nodes).len() > 0 ==> exists|j: int| 0 <= j < nodes.len()
            && base64_content(t, #[trigger] nodes[j] as int) == Some(decodable_certificates(t, nodes)[0])
            && forall|i: int| 0 <= i < j ==> base64_content(t, #[trigger] nodes[i] as int) is None,
        decodable_certificates(t, nodes).len() == 0 ==> forall|i: int| 0 <= i < nodes.len()
            ==> base64_content(t, #[trigger] nodes[i] as int) is None,
    decreases nodes.len(),
{
    if nodes.len() > 0 {
        let init = nodes.drop_last();
        lemma_first_decodable(t, init);
        if decodable_certificates(t, init).len() > 0 {
            let j = choose|j: int| 0 <= j < init.len()
                && base64_content(t, #[trigger] init[j] as int) == Some(decodable_certificates(t, init)[0])
                && forall|i: int| 0 <= i < j ==> base64_content(t, #[trigger] init[i] as int) is None;
            assert(nodes[j] == init[j]);
            assert forall|i: int| 0 <= i < j implies base64_content(t, #[trigger] nodes[i] as int) is None by {
                assert(nodes[i] == init[i]);
            }
        } else {
            assert forall|i: int| 0 <= i < nodes.len() - 1 implies base64_content(t, #[trigger] nodes[i] as int) is None by {
                assert(nodes[i] == init[i]);
            }
            let last = nodes.len() - 1;
            if base64_content(t, nodes[last] as int) is Some {
                assert(decodable_certificates(t, nodes)[0] == base64_content(t, nodes[last] as int).unwrap());
            }
        }
    }
}

/// The signer certificate that the core checks report, and check the
/// SignatureValue with, is the first `ds:X509Certificate` under
/// `ds:KeyInfo`, in document order, whose text decodes as base64: no element
/// before it decodes. Every later decodable one is reported among the extra
/// certificates, in order. Once the SignedInfo's methods are accepted, a
/// signature with a decodable certificate always reports one.
pub proof fn lemma_signer_certificate_is_first(
    t: XmlTree, ids: Map<Seq<char>, usize>, sig: int, files: Seq<DataObject>,
)
    ensures
        ({
            let out = core_checks(t, ids, sig, files).1;
            let certs = key_info_certificates(t, sig);
            &&& out.cert_der matches Some(c) ==> certs.len() > 0 && c == certs[0] && out.extra_certs == certs.drop_first()
            &&& out.cert_der matches Some(c) ==> (t.first_named_child(sig, ns::DSIG@, "KeyInfo"@) matches Some(ki) && {
                let nodes = t.named_descendants(ki as int, ns::DSIG@, "X509Certificate"@);
                exists|j: int| 0 <= j < nodes.len() && base64_content(t, #[trigger] nodes[j] as int) == Some(c)
                    && forall|i: int| 0 <= i < j ==> base64_content(t, #[trigger] nodes[i] as int) is None
            })
            &&& (t.first_named_child(sig, ns::DSIG@, "SignedInfo"@) matches Some(si)
                && c14n_mode_of(algorithm_of(t, si as int, "CanonicalizationMethod"@)) is Some
                && allowed_signature(algorithm_of(t, si as int, "SignatureMethod"@))
                && certs.len() > 0) ==> out.cert_der == Some(certs[0])
        }),
{
    if let Some(ki) = t.first_named_child(sig, ns::DSIG@, "KeyInfo"@) {
        let nodes = t.named_descendants(ki as int, ns::DSIG@, "X509Certificate"@);
        lemma_keys_read_certificates(t, nodes);
        lemma_first_decodable(t, nodes);
    }
}

} // verus!
