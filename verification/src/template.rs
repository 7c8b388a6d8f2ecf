//! The XAdES signature document: its parts and their XML form.
use vstd::prelude::*;

use vstd::string::StringSliceAdditionalSpecFns;

use crate::backend::{self, base64_decoded, base64_text, digest_of, push_char};
use crate::error::LibError;
use crate::ns;
use crate::text::{decimal, decimal_text};

verus! {

// ------------------------------------------------------------ the parts

/// A data object as the signature references it.
#[derive(Debug, Clone)]
pub struct FileRef {
    /// The reference URI: the percent-encoded file name.
    pub uri: String,
    pub mime_type: String,
    /// Digest of the content under the draft's digest method.
    pub digest: Vec<u8>,
}

/// The unsigned properties of a T- or LT-level signature.
#[derive(Debug, Clone)]
pub struct UnsignedData {
    /// DER RFC 3161 timestamp token over the SignatureValue.
    pub timestamp_der: Vec<u8>,
    /// Canonicalization applied to the SignatureValue before timestamping.
    pub timestamp_c14n_uri: String,
    /// DER certificates completing the signer's chain.
    pub cert_values: Vec<Vec<u8>>,
    /// DER OCSP responses.
    pub ocsp_values: Vec<Vec<u8>>,
}

/// Everything a signature document is made from.
#[derive(Debug, Clone)]
pub struct Draft {
    pub id: String,
    pub c14n_uri: String,
    pub sig_method_uri: String,
    pub digest_uri: String,
    pub files: Vec<FileRef>,
    pub cert_der: Vec<u8>,
    /// RFC 3339 signing time.
    pub signing_time: String,
    pub signed_props_digest: Option<Vec<u8>>,
    pub signature_value: Option<Vec<u8>>,
    pub unsigned: Option<UnsignedData>,
}

pub struct FileRefView {
    pub uri: Seq<char>,
    pub mime_type: Seq<char>,
    pub digest: Seq<u8>,
}

pub struct UnsignedView {
    pub timestamp_der: Seq<u8>,
    pub timestamp_c14n_uri: Seq<char>,
    pub cert_values: Seq<Seq<u8>>,
    pub ocsp_values: Seq<Seq<u8>>,
}

pub struct DraftView {
    pub id: Seq<char>,
    pub c14n_uri: Seq<char>,
    pub sig_method_uri: Seq<char>,
    pub digest_uri: Seq<char>,
    pub files: Seq<FileRefView>,
    pub cert_der: Seq<u8>,
    pub signing_time: Seq<char>,
    pub signed_props_digest: Option<Seq<u8>>,
    pub signature_value: Option<Seq<u8>>,
    pub unsigned: Option<UnsignedView>,
}

pub open spec fn blob_views(v: Seq<Vec<u8>>) -> Seq<Seq<u8>> {
    v.map_values(|x: Vec<u8>| x@)
}

pub open spec fn opt_blob(o: Option<Vec<u8>>) -> Option<Seq<u8>> {
    match o {
        Some(v) => Some(v@),
        None => None,
    }
}

impl FileRef {
    pub open spec fn view(self) -> FileRefView {
        FileRefView { uri: self.uri@, mime_type: self.mime_type@, digest: self.digest@ }
    }
}

impl UnsignedData {
    pub open spec fn view(self) -> UnsignedView {
        UnsignedView {
            timestamp_der: self.timestamp_der@,
            timestamp_c14n_uri: self.timestamp_c14n_uri@,
            cert_values: blob_views(self.cert_values@),
            ocsp_values: blob_views(self.ocsp_values@),
        }
    }
}

pub open spec fn opt_unsigned(o: Option<UnsignedData>) -> Option<UnsignedView> {
    match o {
        Some(u) => Some(u.view()),
        None => None,
    }
}

impl Draft {
    pub open spec fn view(self) -> DraftView {
        DraftView {
            id: self.id@,
            c14n_uri: self.c14n_uri@,
            sig_method_uri: self.sig_method_uri@,
            digest_uri: self.digest_uri@,
            files: self.files@.map_values(|f: FileRef| f.view()),
            cert_der: self.cert_der@,
            signing_time: self.signing_time@,
            signed_props_digest: opt_blob(self.signed_props_digest),
            signature_value: opt_blob(self.signature_value),
            unsigned: opt_unsigned(self.unsigned),
        }
    }
}

// -------------------------------------------------------------- escaping

pub open spec fn escape_char(c: char) -> Seq<char> {
    if c == '&' {
        seq!['&', 'a', 'm', 'p', ';']
    } else if c == '<' {
        seq!['&', 'l', 't', ';']
    } else if c == '>' {
        seq!['&', 'g', 't', ';']
    } else if c == '"' {
        seq!['&', 'q', 'u', 'o', 't', ';']
    } else {
        seq![c]
    }
}

/// `s` with `&`, `<`, `>` and `"` written as character references, fit for
/// element content and double-quoted attribute values.
pub open spec fn xml_escaped(s: Seq<char>) -> Seq<char>
    decreases s.len(),
{
    if s.len() == 0 {
        Seq::empty()
    } else {
        xml_escaped(s.drop_last()) + escape_char(s.last())
    }
}

fn push_str(out: &mut String, s: &str)
    ensures
        final(out)@ == old(out)@ + s@,
{
    out.append(s);
}

fn push_chars(out: &mut String, cs: &[char])
    ensures
        final(out)@ == old(out)@ + cs@,
{
    let mut k: usize = 0;
    let ghost start = out@;
    while k < cs.len()
        invariant
            k <= cs@.len(),
            out@ == start + cs@.take(k as int),
        decreases cs.len() - k,
    {
        push_char(out, cs[k]);
        k += 1;
        assert(start + cs@.take(k as int) =~= (start + cs@.take(k - 1)).push(cs@[k - 1]));
    }
    assert(cs@.take(cs@.len() as int) =~= cs@);
}

/// Append `s`, escaped.
pub fn push_escaped(out: &mut String, s: &str)
    ensures
        final(out)@ == old(out)@ + xml_escaped(s@),
{
    let n = s.unicode_len();
    let mut i: usize = 0;
    let ghost start = out@;
    while i < n
        invariant
            i <= n,
            n == s@.len(),
            out@ == start + xml_escaped(s@.take(i as int)),
        decreases n - i,
    {
        let c = s.get_char(i);
        assert(s@.take(i + 1).drop_last() =~= s@.take(i as int));
        assert(s@.take(i + 1).last() == c);
        if c == '&' {
            push_chars(out, &['&', 'a', 'm', 'p', ';']);
        } else if c == '<' {
            push_chars(out, &['&', 'l', 't', ';']);
        } else if c == '>' {
            push_chars(out, &['&', 'g', 't', ';']);
        } else if c == '"' {
            push_chars(out, &['&', 'q', 'u', 'o', 't', ';']);
        } else {
            push_char(out, c);
        }
        i += 1;
        assert(out@ =~= start + xml_escaped(s@.take(i as int)));
    }
    assert(s@.take(n as int) =~= s@);
}

// ------------------------------------------------------- reference URIs

/// A byte that a reference URI keeps as it is: an ASCII letter or digit,
/// `-`, `.`, `_` or `~`.
pub open spec fn unreserved(b: u8) -> bool {
    (0x30 <= b <= 0x39) || (0x41 <= b <= 0x5a) || (0x61 <= b <= 0x7a) || b == 0x2d || b == 0x2e
        || b == 0x5f || b == 0x7e
}

pub open spec fn hex_digit(d: u8) -> char {
    if d < 10 {
        (0x30 + d) as char
    } else {
        (0x41 + d - 10) as char
    }
}

/// The percent-encoding of a byte string: unreserved bytes as they are,
/// every other byte as `%` and two upper-case hex digits.
pub open spec fn percent_encoded(b: Seq<u8>) -> Seq<char>
    decreases b.len(),
{
    if b.len() == 0 {
        Seq::empty()
    } else {
        let rest = percent_encoded(b.drop_last());
        let x = b.last();
        if unreserved(x) {
            rest.push(x as char)
        } else {
            rest.push('%').push(hex_digit(x / 16)).push(hex_digit(x % 16))
        }
    }
}

/// The value of a hexadecimal digit, `0`-`9`, `A`-`F` or `a`-`f`.
pub open spec fn hex_value(c: char) -> Option<u8> {
    let u = c as u32;
    if 0x30 <= u <= 0x39 {
        Some((u - 0x30) as u8)
    } else if 0x41 <= u <= 0x46 {
        Some((u - 0x41 + 10) as u8)
    } else if 0x61 <= u <= 0x66 {
        Some((u - 0x61 + 10) as u8)
    } else {
        None
    }
}

/// Percent-decoding of an ASCII text: `%` followed by two hex digits stands
/// for the byte they spell, any other ASCII character for its own code.
/// `None` for a `%` not followed by two hex digits, or a character beyond
/// ASCII.
pub open spec fn percent_decoded_ascii(s: Seq<char>) -> Option<Seq<u8>>
    decreases s.len(),
{
    if s.len() == 0 {
        Some(Seq::empty())
    } else if s[0] == '%' {
        if s.len() < 3 {
            None
        } else {
            match (hex_value(s[1]), hex_value(s[2]), percent_decoded_ascii(s.skip(3))) {
                (Some(h), Some(l), Some(rest)) => Some(seq![(h * 16 + l) as u8] + rest),
                _ => None,
            }
        }
    } else if (s[0] as u32) < 128 {
        match percent_decoded_ascii(s.skip(1)) {
            Some(rest) => Some(seq![(s[0] as u32) as u8] + rest),
            None => None,
        }
    } else {
        None
    }
}

proof fn lemma_decode_append(x: Seq<char>, y: Seq<char>)
    requires
        percent_decoded_ascii(x) is Some,
        percent_decoded_ascii(y) is Some,
    ensures
        percent_decoded_ascii(x + y) == Some(percent_decoded_ascii(x).unwrap() + percent_decoded_ascii(y).unwrap()),
    decreases x.len(),
{
    if x.len() == 0 {
        assert(x + y =~= y);
        assert(percent_decoded_ascii(x).unwrap() + percent_decoded_ascii(y).unwrap() =~= percent_decoded_ascii(y).unwrap());
    } else if x[0] == '%' {
        assert((x + y).skip(3) =~= x.skip(3) + y);
        assert((x + y)[1] == x[1] && (x + y)[2] == x[2]);
        lemma_decode_append(x.skip(3), y);
        let h = hex_value(x[1]).unwrap();
        let l = hex_value(x[2]).unwrap();
        assert(seq![(h * 16 + l) as u8] + (percent_decoded_ascii(x.skip(3)).unwrap() + percent_decoded_ascii(y).unwrap())
            =~= (seq![(h * 16 + l) as u8] + percent_decoded_ascii(x.skip(3)).unwrap()) + percent_decoded_ascii(y).unwrap());
    } else {
        assert((x + y).skip(1) =~= x.skip(1) + y);
        lemma_decode_append(x.skip(1), y);
        assert(seq![(x[0] as u32) as u8] + (percent_decoded_ascii(x.skip(1)).unwrap() + percent_decoded_ascii(y).unwrap())
            =~= (seq![(x[0] as u32) as u8] + percent_decoded_ascii(x.skip(1)).unwrap()) + percent_decoded_ascii(y).unwrap());
    }
}

/// Each hex digit written is an upper-case hexadecimal digit of the value.
pub proof fn lemma_hex_digit(d: u8)
    requires
        d < 16,
    ensures
        hex_value(hex_digit(d)) == Some(d),
        0x30 <= hex_digit(d) as u32 <= 0x39 || 0x41 <= hex_digit(d) as u32 <= 0x46,
{
}

/// Percent-decoding a percent-encoded byte string gives the bytes back: a
/// reference URI decodes to the name it was written for.
pub proof fn lemma_percent_round_trip(b: Seq<u8>)
    ensures
        percent_decoded_ascii(percent_encoded(b)) == Some(b),
    decreases b.len(),
{
    if b.len() > 0 {
        let init = b.drop_last();
        let x = b.last();
        lemma_percent_round_trip(init);
        let piece: Seq<char> = if unreserved(x) {
            seq![x as char]
        } else {
            seq!['%', hex_digit(x / 16), hex_digit(x % 16)]
        };
        assert(percent_encoded(b) =~= percent_encoded(init) + piece);
        assert(percent_decoded_ascii(Seq::<char>::empty()) == Some(Seq::<u8>::empty()));
        if unreserved(x) {
            assert(piece.skip(1) =~= Seq::<char>::empty());
            assert((x as char) as u32 == x as u32);
            assert(piece[0] != '%');
            assert(seq![((x as char) as u32) as u8] + Seq::<u8>::empty() =~= seq![x]);
            assert(percent_decoded_ascii(piece) == Some(seq![x]));
        } else {
            lemma_hex_digit(x / 16);
            lemma_hex_digit(x % 16);
            assert(piece.skip(3) =~= Seq::<char>::empty());
            assert((x / 16) * 16 + x % 16 == x) by (nonlinear_arith);
            assert(piece[0] == '%' && piece[1] == hex_digit(x / 16) && piece[2] == hex_digit(x % 16));
            assert(seq![(((x / 16) * 16 + x % 16) as u8)] + Seq::<u8>::empty() =~= seq![x]);
            assert(percent_decoded_ascii(piece) == Some(seq![x]));
        }
        lemma_decode_append(percent_encoded(init), piece);
        assert(init + seq![x] =~= b);
    }
}

fn hex(d: u8) -> (c: char)
    requires
        d < 16,
    ensures
        c == hex_digit(d),
{
    if d < 10 {
        (0x30 + d) as char
    } else {
        (0x41 + d - 10) as char
    }
}

/// The reference URI of a data object: its file name, UTF-8 encoded and
/// percent-encoded.
pub fn encode_reference_uri(name: &str) -> (r: String)
    ensures
        r@ == percent_encoded(name.spec_bytes()),
        percent_decoded_ascii(r@) == Some(name.spec_bytes()),
{
    proof {
        lemma_percent_round_trip(name.spec_bytes());
    }
    let b = name.as_bytes();
    let mut out = String::new();
    let mut i: usize = 0;
    while i < b.len()
        invariant
            i <= b@.len(),
            b@ == name.spec_bytes(),
            out@ == percent_encoded(b@.take(i as int)),
        decreases b.len() - i,
    {
        let x = b[i];
        assert(b@.take(i + 1).drop_last() =~= b@.take(i as int));
        assert(b@.take(i + 1).last() == x);
        if (0x30 <= x && x <= 0x39) || (0x41 <= x && x <= 0x5a) || (0x61 <= x && x <= 0x7a) || x == 0x2d
            || x == 0x2e || x == 0x5f || x == 0x7e {
            push_char(&mut out, x as char);
        } else {
            push_char(&mut out, '%');
            push_char(&mut out, hex(x / 16));
            push_char(&mut out, hex(x % 16));
        }
        i += 1;
    }
    assert(b@.take(b@.len() as int) =~= b@);
    out
}


// ------------------------------------------------------ the XML document

pub open spec fn opt_b64(o: Option<Seq<u8>>) -> Seq<char> {
    match o {
        Some(b) => base64_text(b),
        None => Seq::empty(),
    }
}

/// The `ds:Reference` of data object number `i`.
pub open spec fn file_reference_xml(id: Seq<char>, digest_uri: Seq<char>, i: nat, f: FileRefView) -> Seq<char> {
    "<ds:Reference Id=\""@ + xml_escaped(id) + "-ref-"@ + decimal_text(i) + "\" URI=\""@ + xml_escaped(f.uri)
        + "\"><ds:DigestMethod Algorithm=\""@ + xml_escaped(digest_uri)
        + "\"></ds:DigestMethod><ds:DigestValue>"@ + base64_text(f.digest)
        + "</ds:DigestValue></ds:Reference>"@
}

pub open spec fn file_references_xml(id: Seq<char>, digest_uri: Seq<char>, files: Seq<FileRefView>) -> Seq<char>
    decreases files.len(),
{
    if files.len() == 0 {
        Seq::empty()
    } else {
        file_references_xml(id, digest_uri, files.drop_last())
            + file_reference_xml(id, digest_uri, (files.len() - 1) as nat, files.last())
    }
}

/// `ds:SignedInfo`: the canonicalization and signature methods, one
/// reference per data object and the reference to the SignedProperties.
pub open spec fn signed_info_xml(d: DraftView) -> Seq<char> {
    "<ds:SignedInfo><ds:CanonicalizationMethod Algorithm=\""@ + xml_escaped(d.c14n_uri)
        + "\"></ds:CanonicalizationMethod><ds:SignatureMethod Algorithm=\""@ + xml_escaped(d.sig_method_uri)
        + "\"></ds:SignatureMethod>"@
        + file_references_xml(d.id, d.digest_uri, d.files)
        + "<ds:Reference Type=\""@ + xml_escaped(ns::TYPE_SIGNED_PROPERTIES@) + "\" URI=\"#"@ + xml_escaped(d.id)
        + "-SignedProperties\"><ds:DigestMethod Algorithm=\""@ + xml_escaped(d.digest_uri)
        + "\"></ds:DigestMethod><ds:DigestValue>"@ + opt_b64(d.signed_props_digest)
        + "</ds:DigestValue></ds:Reference></ds:SignedInfo>"@
}

pub open spec fn signature_value_xml(d: DraftView) -> Seq<char> {
    "<ds:SignatureValue Id=\""@ + xml_escaped(d.id) + "-SIG\">"@ + opt_b64(d.signature_value)
        + "</ds:SignatureValue>"@
}

pub open spec fn key_info_xml(d: DraftView) -> Seq<char> {
    "<ds:KeyInfo><ds:X509Data><ds:X509Certificate>"@ + base64_text(d.cert_der)
        + "</ds:X509Certificate></ds:X509Data></ds:KeyInfo>"@
}

pub open spec fn data_object_format_xml(id: Seq<char>, i: nat, f: FileRefView) -> Seq<char> {
    "<xades:DataObjectFormat ObjectReference=\"#"@ + xml_escaped(id) + "-ref-"@ + decimal_text(i)
        + "\"><xades:MimeType>"@ + xml_escaped(f.mime_type) + "</xades:MimeType></xades:DataObjectFormat>"@
}

pub open spec fn data_object_formats_xml(id: Seq<char>, files: Seq<FileRefView>) -> Seq<char>
    decreases files.len(),
{
    if files.len() == 0 {
        Seq::empty()
    } else {
        data_object_formats_xml(id, files.drop_last())
            + data_object_format_xml(id, (files.len() - 1) as nat, files.last())
    }
}

/// `xades:SignedProperties`: signing time, digest of the signing
/// certificate and the media type of each data object.
pub open spec fn signed_properties_xml(d: DraftView, cert_digest: Seq<u8>) -> Seq<char> {
    "<xades:SignedProperties Id=\""@ + xml_escaped(d.id)
        + "-SignedProperties\"><xades:SignedSignatureProperties><xades:SigningTime>"@
        + xml_escaped(d.signing_time)
        + "</xades:SigningTime><xades:SigningCertificateV2><xades:Cert><xades:CertDigest><ds:DigestMethod Algorithm=\""@
        + xml_escaped(d.digest_uri) + "\"></ds:DigestMethod><ds:DigestValue>"@ + base64_text(cert_digest)
        + "</ds:DigestValue></xades:CertDigest></xades:Cert></xades:SigningCertificateV2></xades:SignedSignatureProperties><xades:SignedDataObjectProperties>"@
        + data_object_formats_xml(d.id, d.files)
        + "</xades:SignedDataObjectProperties></xades:SignedProperties>"@
}

pub open spec fn encapsulated_xml(open: Seq<char>, close: Seq<char>, items: Seq<Seq<u8>>) -> Seq<char>
    decreases items.len(),
{
    if items.len() == 0 {
        Seq::empty()
    } else {
        encapsulated_xml(open, close, items.drop_last()) + open + base64_text(items.last()) + close
    }
}

/// The encapsulated values are written one element per value, in the order
/// given: the text for a list split anywhere is the text for the first part
/// followed by the text for the second, and the text for one value is the
/// opening tag, that value in base64, and the closing tag.
pub proof fn lemma_encapsulated_each_value(open: Seq<char>, close: Seq<char>, a: Seq<Seq<u8>>, b: Seq<Seq<u8>>, x: Seq<u8>)
    ensures
        encapsulated_xml(open, close, a + b) == encapsulated_xml(open, close, a) + encapsulated_xml(open, close, b),
        encapsulated_xml(open, close, seq![x]) == open + base64_text(x) + close,
    decreases b.len(),
{
    assert(seq![x].drop_last() =~= Seq::<Seq<u8>>::empty());
    assert(seq![x].last() == x);
    assert(encapsulated_xml(open, close, Seq::<Seq<u8>>::empty()) == Seq::<char>::empty());
    assert(Seq::<char>::empty() + open + base64_text(x) + close =~= open + base64_text(x) + close);
    if b.len() == 0 {
        assert(a + b =~= a);
        assert(encapsulated_xml(open, close, a) + encapsulated_xml(open, close, b) =~= encapsulated_xml(open, close, a));
    } else {
        lemma_encapsulated_each_value(open, close, a, b.drop_last(), x);
        assert((a + b).drop_last() =~= a + b.drop_last());
        assert((a + b).last() == b.last());
        assert(encapsulated_xml(open, close, a + b) =~= encapsulated_xml(open, close, a) + encapsulated_xml(open, close, b));
    }
}

pub open spec fn certificate_values_xml(certs: Seq<Seq<u8>>) -> Seq<char> {
    if certs.len() == 0 {
        Seq::empty()
    } else {
        "<xades:CertificateValues>"@
            + encapsulated_xml("<xades:EncapsulatedX509Certificate>"@, "</xades:EncapsulatedX509Certificate>"@, certs)
            + "</xades:CertificateValues>"@
    }
}

pub open spec fn revocation_values_xml(ocsp: Seq<Seq<u8>>) -> Seq<char> {
    if ocsp.len() == 0 {
        Seq::empty()
    } else {
        "<xades:RevocationValues><xades:OCSPValues>"@
            + encapsulated_xml("<xades:EncapsulatedOCSPValue>"@, "</xades:EncapsulatedOCSPValue>"@, ocsp)
            + "</xades:OCSPValues></xades:RevocationValues>"@
    }
}

/// `xades:UnsignedProperties`: the signature timestamp, then the chain
/// certificates and the OCSP responses when there are any.
pub open spec fn unsigned_properties_xml(id: Seq<char>, u: UnsignedView) -> Seq<char> {
    "<xades:UnsignedProperties><xades:UnsignedSignatureProperties><xades:SignatureTimeStamp Id=\""@
        + xml_escaped(id) + "-T0\"><ds:CanonicalizationMethod Algorithm=\""@ + xml_escaped(u.timestamp_c14n_uri)
        + "\"></ds:CanonicalizationMethod><xades:EncapsulatedTimeStamp>"@ + base64_text(u.timestamp_der)
        + "</xades:EncapsulatedTimeStamp></xades:SignatureTimeStamp>"@
        + certificate_values_xml(u.cert_values) + revocation_values_xml(u.ocsp_values)
        + "</xades:UnsignedSignatureProperties></xades:UnsignedProperties>"@
}

pub open spec fn opt_unsigned_xml(id: Seq<char>, u: Option<UnsignedView>) -> Seq<char> {
    match u {
        Some(u) => unsigned_properties_xml(id, u),
        None => Seq::empty(),
    }
}

/// The whole `ds:Signature` element of a draft whose signing certificate
/// has digest `cert_digest`.
pub open spec fn signature_xml(d: DraftView, cert_digest: Seq<u8>) -> Seq<char> {
    "<ds:Signature xmlns:ds=\""@ + ns::DSIG@ + "\" Id=\""@ + xml_escaped(d.id) + "\">"@
        + signed_info_xml(d) + signature_value_xml(d) + key_info_xml(d)
        + "<ds:Object><xades:QualifyingProperties xmlns:xades=\""@ + ns::XADES@ + "\" Target=\"#"@
        + xml_escaped(d.id) + "\">"@
        + signed_properties_xml(d, cert_digest) + opt_unsigned_xml(d.id, d.unsigned)
        + "</xades:QualifyingProperties></ds:Object></ds:Signature>"@
}

/// The base64 text written for `b` decodes back to `b`.
pub open spec fn decodes_back(b: Seq<u8>) -> bool {
    base64_decoded(base64_text(b)) == Ok::<Seq<u8>, Seq<char>>(b)
}

/// Each of `v` decodes back from its base64 text.
pub open spec fn all_decode_back(v: Seq<Seq<u8>>) -> bool {
    forall|i: int| 0 <= i < v.len() ==> #[trigger] decodes_back(v[i])
}

/// Every binary value that a draft's document carries in base64 (the
/// certificate, the signature value, the timestamp token, the certificate
/// and OCSP values) decodes back from the text written for it.
pub open spec fn encoded_values_decode(d: DraftView) -> bool {
    &&& decodes_back(d.cert_der)
    &&& d.signature_value matches Some(sv) ==> decodes_back(sv)
    &&& d.unsigned matches Some(u) ==> decodes_back(u.timestamp_der) && all_decode_back(u.cert_values)
        && all_decode_back(u.ocsp_values)
}

fn push_base64(out: &mut String, b: &[u8])
    ensures
        final(out)@ == old(out)@ + base64_text(b@),
        decodes_back(b@),
{
    let t = backend::base64_encode(b);
    out.append(t.as_str());
}

fn push_opt_base64(out: &mut String, b: &Option<Vec<u8>>)
    ensures
        final(out)@ == old(out)@ + opt_b64(opt_blob(*b)),
        opt_blob(*b) matches Some(v) ==> decodes_back(v),
{
    match b {
        Some(v) => push_base64(out, v.as_slice()),
        None => {
            assert(out@ =~= out@ + Seq::<char>::empty());
        },
    }
}

fn push_decimal(out: &mut String, n: usize)
    ensures
        final(out)@ == old(out)@ + decimal_text(n as nat),
{
    let t = decimal(n);
    out.append(t.as_str());
}

fn push_file_references(out: &mut String, d: &Draft)
    ensures
        final(out)@ == old(out)@ + file_references_xml(d.id@, d.digest_uri@, d.view().files),
{
    let ghost start = out@;
    let ghost files = d.view().files;
    let mut k: usize = 0;
    assert(files.take(0) =~= Seq::<FileRefView>::empty());
    while k < d.files.len()
        invariant
            k <= d.files@.len(),
            files == d.view().files,
            files.len() == d.files@.len(),
            out@ == start + file_references_xml(d.id@, d.digest_uri@, files.take(k as int)),
        decreases d.files.len() - k,
    {
        let ghost before = out@;
        let f = &d.files[k];
        push_str(out, "<ds:Reference Id=\"");
        push_escaped(out, d.id.as_str());
        push_str(out, "-ref-");
        push_decimal(out, k);
        push_str(out, "\" URI=\"");
        push_escaped(out, f.uri.as_str());
        push_str(out, "\"><ds:DigestMethod Algorithm=\"");
        push_escaped(out, d.digest_uri.as_str());
        push_str(out, "\"></ds:DigestMethod><ds:DigestValue>");
        push_base64(out, f.digest.as_slice());
        push_str(out, "</ds:DigestValue></ds:Reference>");
        proof {
            assert(files.take(k + 1).drop_last() =~= files.take(k as int));
            assert(files.take(k + 1).last() == f.view());
            assert(out@ =~= before + file_reference_xml(d.id@, d.digest_uri@, k as nat, f.view()));
        }
        k += 1;
    }
    assert(files.take(files.len() as int) =~= files);
}

fn push_signed_info(out: &mut String, d: &Draft)
    ensures
        final(out)@ == old(out)@ + signed_info_xml(d.view()),
{
    let ghost start = out@;
    push_str(out, "<ds:SignedInfo><ds:CanonicalizationMethod Algorithm=\"");
    push_escaped(out, d.c14n_uri.as_str());
    push_str(out, "\"></ds:CanonicalizationMethod><ds:SignatureMethod Algorithm=\"");
    push_escaped(out, d.sig_method_uri.as_str());
    push_str(out, "\"></ds:SignatureMethod>");
    push_file_references(out, d);
    push_str(out, "<ds:Reference Type=\"");
    push_escaped(out, ns::TYPE_SIGNED_PROPERTIES);
    push_str(out, "\" URI=\"#");
    push_escaped(out, d.id.as_str());
    push_str(out, "-SignedProperties\"><ds:DigestMethod Algorithm=\"");
    push_escaped(out, d.digest_uri.as_str());
    push_str(out, "\"></ds:DigestMethod><ds:DigestValue>");
    push_opt_base64(out, &d.signed_props_digest);
    push_str(out, "</ds:DigestValue></ds:Reference></ds:SignedInfo>");
    assert(out@ =~= start + signed_info_xml(d.view()));
}

fn push_data_object_formats(out: &mut String, d: &Draft)
    ensures
        final(out)@ == old(out)@ + data_object_formats_xml(d.id@, d.view().files),
{
    let ghost start = out@;
    let ghost files = d.view().files;
    let mut k: usize = 0;
    assert(files.take(0) =~= Seq::<FileRefView>::empty());
    while k < d.files.len()
        invariant
            k <= d.files@.len(),
            files == d.view().files,
            files.len() == d.files@.len(),
            out@ == start + data_object_formats_xml(d.id@, files.take(k as int)),
        decreases d.files.len() - k,
    {
        let ghost before = out@;
        let f = &d.files[k];
        push_str(out, "<xades:DataObjectFormat ObjectReference=\"#");
        push_escaped(out, d.id.as_str());
        push_str(out, "-ref-");
        push_decimal(out, k);
        push_str(out, "\"><xades:MimeType>");
        push_escaped(out, f.mime_type.as_str());
        push_str(out, "</xades:MimeType></xades:DataObjectFormat>");
        proof {
            assert(files.take(k + 1).drop_last() =~= files.take(k as int));
            assert(files.take(k + 1).last() == f.view());
            assert(out@ =~= before + data_object_format_xml(d.id@, k as nat, f.view()));
        }
        k += 1;
    }
    assert(files.take(files.len() as int) =~= files);
}

fn push_signed_properties(out: &mut String, d: &Draft, cert_digest: &Vec<u8>)
    ensures
        final(out)@ == old(out)@ + signed_properties_xml(d.view(), cert_digest@),
{
    let ghost start = out@;
    push_str(out, "<xades:SignedProperties Id=\"");
    push_escaped(out, d.id.as_str());
    push_str(out, "-SignedProperties\"><xades:SignedSignatureProperties><xades:SigningTime>");
    push_escaped(out, d.signing_time.as_str());
    push_str(out, "</xades:SigningTime><xades:SigningCertificateV2><xades:Cert><xades:CertDigest><ds:DigestMethod Algorithm=\"");
    push_escaped(out, d.digest_uri.as_str());
    push_str(out, "\"></ds:DigestMethod><ds:DigestValue>");
    push_base64(out, cert_digest.as_slice());
    push_str(out, "</ds:DigestValue></xades:CertDigest></xades:Cert></xades:SigningCertificateV2></xades:SignedSignatureProperties><xades:SignedDataObjectProperties>");
    push_data_object_formats(out, d);
    push_str(out, "</xades:SignedDataObjectProperties></xades:SignedProperties>");
    assert(out@ =~= start + signed_properties_xml(d.view(), cert_digest@));
}

fn push_encapsulated(out: &mut String, open: &str, close: &str, items: &Vec<Vec<u8>>)
    ensures
        final(out)@ == old(out)@ + encapsulated_xml(open@, close@, blob_views(items@)),
        all_decode_back(blob_views(items@)),
{
    let ghost start = out@;
    let ghost all = blob_views(items@);
    let mut k: usize = 0;
    assert(all.take(0) =~= Seq::<Seq<u8>>::empty());
    while k < items.len()
        invariant
            k <= items@.len(),
            all == blob_views(items@),
            out@ == start + encapsulated_xml(open@, close@, all.take(k as int)),
            forall|j: int| 0 <= j < k ==> #[trigger] decodes_back(all[j]),
        decreases items.len() - k,
    {
        let ghost before = out@;
        push_str(out, open);
        push_base64(out, items[k].as_slice());
        push_str(out, close);
        proof {
            assert(all.take(k + 1).drop_last() =~= all.take(k as int));
            assert(all.take(k + 1).last() == items@[k as int]@);
            assert(out@ =~= before + open@ + base64_text(items@[k as int]@) + close@);
        }
        k += 1;
    }
    assert(all.take(all.len() as int) =~= all);
}

fn push_certificate_values(out: &mut String, certs: &Vec<Vec<u8>>)
    ensures
        final(out)@ == old(out)@ + certificate_values_xml(blob_views(certs@)),
        certs@.len() > 0 ==> all_decode_back(blob_views(certs@)),
{
    let ghost start = out@;
    if certs.len() > 0 {
        push_str(out, "<xades:CertificateValues>");
        push_encapsulated(out, "<xades:EncapsulatedX509Certificate>", "</xades:EncapsulatedX509Certificate>", certs);
        push_str(out, "</xades:CertificateValues>");
    }
    assert(out@ =~= start + certificate_values_xml(blob_views(certs@)));
}

fn push_revocation_values(out: &mut String, ocsp: &Vec<Vec<u8>>)
    ensures
        final(out)@ == old(out)@ + revocation_values_xml(blob_views(ocsp@)),
        ocsp@.len() > 0 ==> all_decode_back(blob_views(ocsp@)),
{
    let ghost start = out@;
    if ocsp.len() > 0 {
        push_str(out, "<xades:RevocationValues><xades:OCSPValues>");
        push_encapsulated(out, "<xades:EncapsulatedOCSPValue>", "</xades:EncapsulatedOCSPValue>", ocsp);
        push_str(out, "</xades:OCSPValues></xades:RevocationValues>");
    }
    assert(out@ =~= start + revocation_values_xml(blob_views(ocsp@)));
}

fn push_unsigned(out: &mut String, id: &String, u: &Option<UnsignedData>)
    ensures
        final(out)@ == old(out)@ + opt_unsigned_xml(id@, opt_unsigned(*u)),
        opt_unsigned(*u) matches Some(x) ==> decodes_back(x.timestamp_der) && all_decode_back(x.cert_values)
            && all_decode_back(x.ocsp_values),
{
    let ghost start = out@;
    let u = match u {
        Some(u) => u,
        None => {
            assert(out@ =~= start + Seq::<char>::empty());
            return;
        },
    };
    push_str(out, "<xades:UnsignedProperties><xades:UnsignedSignatureProperties><xades:SignatureTimeStamp Id=\"");
    push_escaped(out, id.as_str());
    push_str(out, "-T0\"><ds:CanonicalizationMethod Algorithm=\"");
    push_escaped(out, u.timestamp_c14n_uri.as_str());
    push_str(out, "\"></ds:CanonicalizationMethod><xades:EncapsulatedTimeStamp>");
    push_base64(out, u.timestamp_der.as_slice());
    push_str(out, "</xades:EncapsulatedTimeStamp></xades:SignatureTimeStamp>");
    push_certificate_values(out, &u.cert_values);
    push_revocation_values(out, &u.ocsp_values);
    push_str(out, "</xades:UnsignedSignatureProperties></xades:UnsignedProperties>");
    assert(out@ =~= start + unsigned_properties_xml(id@, u.view()));
}

/// The XML of the signature a draft describes.
///
/// Fails with `LibError::Crypto` when the digest of the signing
/// certificate cannot be computed.
#[verifier::spinoff_prover]
#[verifier::rlimit(40)]
pub fn build_signature_xml(d: &Draft) -> (r: Result<String, LibError>)
    ensures
        match digest_of(d.digest_uri@, d.cert_der@) {
            Ok(cd) => r matches Ok(x) && x@ == signature_xml(d.view(), cd),
            Err(e) => r matches Err(LibError::Crypto(m)) && m@ == e,
        },
        r is Ok ==> encoded_values_decode(d.view()),
{
    let cert_digest = match backend::digest(d.digest_uri.as_str(), d.cert_der.as_slice()) {
        Ok(v) => v,
        Err(e) => return Err(LibError::Crypto(e)),
    };
    let mut out = String::new();
    push_str(&mut out, "<ds:Signature xmlns:ds=\"");
    push_str(&mut out, ns::DSIG);
    push_str(&mut out, "\" Id=\"");
    push_escaped(&mut out, d.id.as_str());
    push_str(&mut out, "\">");
    push_signed_info(&mut out, d);
    push_str(&mut out, "<ds:SignatureValue Id=\"");
    push_escaped(&mut out, d.id.as_str());
    push_str(&mut out, "-SIG\">");
    push_opt_base64(&mut out, &d.signature_value);
    push_str(&mut out, "</ds:SignatureValue>");
    push_str(&mut out, "<ds:KeyInfo><ds:X509Data><ds:X509Certificate>");
    push_base64(&mut out, d.cert_der.as_slice());
    push_str(&mut out, "</ds:X509Certificate></ds:X509Data></ds:KeyInfo>");
    push_str(&mut out, "<ds:Object><xades:QualifyingProperties xmlns:xades=\"");
    push_str(&mut out, ns::XADES);
    push_str(&mut out, "\" Target=\"#");
    push_escaped(&mut out, d.id.as_str());
    push_str(&mut out, "\">");
    push_signed_properties(&mut out, d, &cert_digest);
    push_unsigned(&mut out, &d.id, &d.unsigned);
    push_str(&mut out, "</xades:QualifyingProperties></ds:Object></ds:Signature>");
    assert(out@ =~= signature_xml(d.view(), cert_digest@));
    Ok(out)
}


/// Putting the signature value in, or unsigned properties, changes neither
/// the `ds:SignedInfo` nor the `xades:SignedProperties` of the document: what
/// was signed stays as it was.
pub proof fn lemma_signed_parts_unchanged(
    d: DraftView, cert_digest: Seq<u8>, value: Option<Seq<u8>>, unsigned: Option<UnsignedView>,
)
    ensures
        signed_info_xml(DraftView { signature_value: value, unsigned: unsigned, ..d }) == signed_info_xml(d),
        signed_properties_xml(DraftView { signature_value: value, unsigned: unsigned, ..d }, cert_digest)
            == signed_properties_xml(d, cert_digest),
        key_info_xml(DraftView { signature_value: value, unsigned: unsigned, ..d }) == key_info_xml(d),
{
}

} // verus!
