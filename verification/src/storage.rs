//! The self-describing metadata record embedded in every generated shim.
//!
//! A record names the published binary, the package it came from, and the
//! runtime version that was active at install time.  It is carried as a tagged
//! union so that future shapes can be added under new tags while old shims
//! keep decoding; decoding accepts only known tags and fails closed otherwise.
//!
//! The transport form is the canonical JSON object
//! `{"metadata_version":"v1","binary_name":...,"package_name":...,"node_version":...}`
//! passed through base64, which keeps it binary-safe and newline-free, so it
//! can ride inside a single shell comment line.

use vstd::prelude::*;
use vstd::string::*;
use vstd::utf8::*;

use crate::json::{
    esc, escape_append, lemma_lit_step, lemma_parse_sound, lemma_string_step, lemma_sub_cat,
    match_at, match_lit, parse_string_x, spec_parse_string, B_CLOSE_BRACE, B_QUOTE,
};

verus! {

/// The current in-memory shape of a record.
#[derive(Debug, PartialEq, Eq)]
pub struct MetadataV1 {
    pub binary_name: String,
    pub package_name: String,
    pub node_version: String,
}

/// A record under its explicit version tag.
#[derive(Debug, PartialEq, Eq)]
pub enum Metadata {
    V1(MetadataV1),
}

/// The latest record shape; older tags migrate to this one on decode.
pub type LatestMetadata = MetadataV1;

/// The mathematical content of a record: its three fields as character
/// sequences.
pub ghost struct MetadataView {
    pub binary_name: Seq<char>,
    pub package_name: Seq<char>,
    pub node_version: Seq<char>,
}

impl View for MetadataV1 {
    type V = MetadataView;

    open spec fn view(&self) -> MetadataView {
        MetadataView {
            binary_name: self.binary_name@,
            package_name: self.package_name@,
            node_version: self.node_version@,
        }
    }
}

impl View for Metadata {
    type V = MetadataView;

    open spec fn view(&self) -> MetadataView {
        match self {
            Metadata::V1(m) => m@,
        }
    }
}

impl Metadata {
    /// Migrates a record of any known tag to the latest shape.
    pub fn latest(self) -> (r: LatestMetadata)
        ensures
            r@ == self@,
    {
        match self {
            Self::V1(m) => m,
        }
    }
}

/// The bytes of the fixed object opening, through the tag's opening quote.
pub open spec fn lit_head() -> Seq<u8> {
    "{\"metadata_version\":\"".spec_bytes()
}

/// The tag that the current record shape carries.
pub open spec fn tag_v1() -> Seq<u8> {
    "v1".spec_bytes()
}

/// The bytes between the tag and the binary-name value.
pub open spec fn lit_bin() -> Seq<u8> {
    ",\"binary_name\":\"".spec_bytes()
}

/// The bytes between the binary-name and package-name values.
pub open spec fn lit_pkg() -> Seq<u8> {
    ",\"package_name\":\"".spec_bytes()
}

/// The bytes between the package-name and node-version values.
pub open spec fn lit_node() -> Seq<u8> {
    ",\"node_version\":\"".spec_bytes()
}

/// The closing brace as a one-byte sequence.
pub open spec fn close_seq() -> Seq<u8> {
    seq![B_CLOSE_BRACE]
}

/// The canonical JSON bytes of a record with the given raw field bytes: the
/// fixed keys in fixed order, each value escaped, no whitespace.
pub open spec fn json_of_bytes(bn: Seq<u8>, pn: Seq<u8>, nv: Seq<u8>) -> Seq<u8> {
    lit_head() + ((esc(tag_v1()) + seq![B_QUOTE]) + (lit_bin() + ((esc(bn) + seq![B_QUOTE]) + (
    lit_pkg() + ((esc(pn) + seq![B_QUOTE]) + (lit_node() + ((esc(nv) + seq![B_QUOTE])
        + close_seq())))))))
}

/// The canonical JSON bytes of a record: its fields carried as UTF-8.
pub open spec fn json_of(m: MetadataView) -> Seq<u8> {
    json_of_bytes(
        encode_utf8(m.binary_name),
        encode_utf8(m.package_name),
        encode_utf8(m.node_version),
    )
}

/// A record's three fields as raw byte strings, as the parser recovers them
/// before UTF-8 decoding.
pub ghost struct RecordBytes {
    pub binary_name: Seq<u8>,
    pub package_name: Seq<u8>,
    pub node_version: Seq<u8>,
}

/// Parses the canonical JSON bytes of a record; accepts exactly the shape that
/// `json_of` produces, with the known tag, and nothing else.
pub open spec fn spec_parse_record(s: Seq<u8>) -> Option<RecordBytes> {
    if !match_at(s, 0, lit_head()) {
        None
    } else {
        match spec_parse_string(s, lit_head().len() as int) {
            None => None,
            Some((tag, i1)) => if tag != tag_v1() || !match_at(s, i1, lit_bin()) {
                None
            } else {
                match spec_parse_string(s, i1 + lit_bin().len()) {
                    None => None,
                    Some((bn, i2)) => if !match_at(s, i2, lit_pkg()) {
                        None
                    } else {
                        match spec_parse_string(s, i2 + lit_pkg().len()) {
                            None => None,
                            Some((pn, i3)) => if !match_at(s, i3, lit_node()) {
                                None
                            } else {
                                match spec_parse_string(s, i3 + lit_node().len()) {
                                    None => None,
                                    Some((nv, i4)) => if i4 + 1 == s.len() && s[i4]
                                        == B_CLOSE_BRACE {
                                        Some(
                                            RecordBytes {
                                                binary_name: bn,
                                                package_name: pn,
                                                node_version: nv,
                                            },
                                        )
                                    } else {
                                        None
                                    },
                                }
                            },
                        }
                    },
                }
            },
        }
    }
}

/// The record a canonical JSON byte string denotes: the parsed fields, decoded
/// from UTF-8, provided all three are valid UTF-8.
pub open spec fn spec_record_of(s: Seq<u8>) -> Option<MetadataView> {
    match spec_parse_record(s) {
        None => None,
        Some(rb) => if valid_utf8(rb.binary_name) && valid_utf8(rb.package_name) && valid_utf8(
            rb.node_version,
        ) {
            Some(
                MetadataView {
                    binary_name: decode_utf8(rb.binary_name),
                    package_name: decode_utf8(rb.package_name),
                    node_version: decode_utf8(rb.node_version),
                },
            )
        } else {
            None
        },
    }
}

/// Parsing inverts building: the canonical JSON bytes of any raw fields parse
/// back to exactly those fields.
#[verifier::rlimit(100)]
pub proof fn lemma_record_round_trip_bytes(bn: Seq<u8>, pn: Seq<u8>, nv: Seq<u8>)
    ensures
        spec_parse_record(json_of_bytes(bn, pn, nv)) == Some(
            RecordBytes { binary_name: bn, package_name: pn, node_version: nv },
        ),
{
    let s = json_of_bytes(bn, pn, nv);
    let h = lit_head().len() as int;
    let r1 = (esc(tag_v1()) + seq![B_QUOTE]) + (lit_bin() + ((esc(bn) + seq![B_QUOTE]) + (lit_pkg()
        + ((esc(pn) + seq![B_QUOTE]) + (lit_node() + ((esc(nv) + seq![B_QUOTE]) + close_seq()))))));
    assert(s.subrange(0, s.len() as int) =~= lit_head() + r1);
    lemma_lit_step(s, 0, lit_head(), r1);
    let r2 = lit_bin() + ((esc(bn) + seq![B_QUOTE]) + (lit_pkg() + ((esc(pn) + seq![B_QUOTE]) + (
    lit_node() + ((esc(nv) + seq![B_QUOTE]) + close_seq())))));
    lemma_string_step(s, h, tag_v1(), r2);
    let i1 = h + esc(tag_v1()).len() + 1;
    let r3 = (esc(bn) + seq![B_QUOTE]) + (lit_pkg() + ((esc(pn) + seq![B_QUOTE]) + (lit_node() + ((
    esc(nv) + seq![B_QUOTE]) + close_seq()))));
    lemma_lit_step(s, i1, lit_bin(), r3);
    let r4 = lit_pkg() + ((esc(pn) + seq![B_QUOTE]) + (lit_node() + ((esc(nv) + seq![B_QUOTE])
        + close_seq())));
    lemma_string_step(s, i1 + lit_bin().len(), bn, r4);
    let i2 = i1 + lit_bin().len() + esc(bn).len() + 1;
    let r5 = (esc(pn) + seq![B_QUOTE]) + (lit_node() + ((esc(nv) + seq![B_QUOTE]) + close_seq()));
    lemma_lit_step(s, i2, lit_pkg(), r5);
    let r6 = lit_node() + ((esc(nv) + seq![B_QUOTE]) + close_seq());
    lemma_string_step(s, i2 + lit_pkg().len(), pn, r6);
    let i3 = i2 + lit_pkg().len() + esc(pn).len() + 1;
    let r7 = (esc(nv) + seq![B_QUOTE]) + close_seq();
    lemma_lit_step(s, i3, lit_node(), r7);
    lemma_string_step(s, i3 + lit_node().len(), nv, close_seq());
    let i4 = i3 + lit_node().len() + esc(nv).len() + 1;
    assert(s.subrange(i4, s.len() as int) == close_seq());
    assert(s.len() - i4 == 1);
    assert(s[i4] == s.subrange(i4, s.len() as int)[0]);
    assert(s[i4] == B_CLOSE_BRACE);
}

/// A successful parse came from exactly the canonical bytes of its result:
/// nothing but `json_of_bytes` shapes are accepted.
pub proof fn lemma_record_sound(s: Seq<u8>, rb: RecordBytes)
    requires
        spec_parse_record(s) == Some(rb),
    ensures
        s == json_of_bytes(rb.binary_name, rb.package_name, rb.node_version),
{
    let h = lit_head().len() as int;
    let (tag, i1) = spec_parse_string(s, h).unwrap();
    lemma_parse_sound(s, h, tag, i1);
    let p1 = i1 + lit_bin().len();
    let (bn, i2) = spec_parse_string(s, p1).unwrap();
    lemma_parse_sound(s, p1, bn, i2);
    let p2 = i2 + lit_pkg().len();
    let (pn, i3) = spec_parse_string(s, p2).unwrap();
    lemma_parse_sound(s, p2, pn, i3);
    let p3 = i3 + lit_node().len();
    let (nv, i4) = spec_parse_string(s, p3).unwrap();
    lemma_parse_sound(s, p3, nv, i4);
    let e = s.len() as int;
    // The closing brace.
    assert(s.subrange(i4, e) =~= close_seq());
    // Glue the pieces back together, right to left, in the builder's shape.
    lemma_sub_cat(s, p3, i4, e, esc(nv) + seq![B_QUOTE], close_seq());
    assert(s.subrange(i3, p3) =~= lit_node());
    lemma_sub_cat(s, i3, p3, e, lit_node(), (esc(nv) + seq![B_QUOTE]) + close_seq());
    lemma_sub_cat(
        s,
        p2,
        i3,
        e,
        esc(pn) + seq![B_QUOTE],
        lit_node() + ((esc(nv) + seq![B_QUOTE]) + close_seq()),
    );
    assert(s.subrange(i2, p2) =~= lit_pkg());
    lemma_sub_cat(
        s,
        i2,
        p2,
        e,
        lit_pkg(),
        (esc(pn) + seq![B_QUOTE]) + (lit_node() + ((esc(nv) + seq![B_QUOTE]) + close_seq())),
    );
    lemma_sub_cat(
        s,
        p1,
        i2,
        e,
        esc(bn) + seq![B_QUOTE],
        lit_pkg() + ((esc(pn) + seq![B_QUOTE]) + (lit_node() + ((esc(nv) + seq![B_QUOTE])
            + close_seq()))),
    );
    assert(s.subrange(i1, p1) =~= lit_bin());
    lemma_sub_cat(
        s,
        i1,
        p1,
        e,
        lit_bin(),
        (esc(bn) + seq![B_QUOTE]) + (lit_pkg() + ((esc(pn) + seq![B_QUOTE]) + (lit_node() + ((esc(
            nv,
        ) + seq![B_QUOTE]) + close_seq())))),
    );
    lemma_sub_cat(
        s,
        h,
        i1,
        e,
        esc(tag) + seq![B_QUOTE],
        lit_bin() + ((esc(bn) + seq![B_QUOTE]) + (lit_pkg() + ((esc(pn) + seq![B_QUOTE]) + (
        lit_node() + ((esc(nv) + seq![B_QUOTE]) + close_seq()))))),
    );
    assert(s.subrange(0, h) =~= lit_head());
    lemma_sub_cat(
        s,
        0,
        h,
        e,
        lit_head(),
        (esc(tag) + seq![B_QUOTE]) + (lit_bin() + ((esc(bn) + seq![B_QUOTE]) + (lit_pkg() + ((esc(
            pn,
        ) + seq![B_QUOTE]) + (lit_node() + ((esc(nv) + seq![B_QUOTE]) + close_seq())))))),
    );
    assert(s =~= s.subrange(0, e));
    assert(tag == tag_v1());
    assert(rb.binary_name == bn && rb.package_name == pn && rb.node_version == nv);
}

/// The record round trip at the level of decoded fields: the canonical bytes
/// of any record denote exactly that record.
pub proof fn lemma_record_of_round_trip(m: MetadataView)
    ensures
        spec_record_of(json_of(m)) == Some(m),
{
    lemma_record_round_trip_bytes(
        encode_utf8(m.binary_name),
        encode_utf8(m.package_name),
        encode_utf8(m.node_version),
    );
    encode_utf8_valid_utf8(m.binary_name);
    encode_utf8_valid_utf8(m.package_name);
    encode_utf8_valid_utf8(m.node_version);
    encode_utf8_decode_utf8(m.binary_name);
    encode_utf8_decode_utf8(m.package_name);
    encode_utf8_decode_utf8(m.node_version);
}

/// What `base64::encode` returns for the given bytes.
pub uninterp spec fn b64_of(bytes: Seq<u8>) -> Seq<char>;

/// What `base64::decode` recovers from the given text, when it succeeds.
pub uninterp spec fn b64_inverse(s: Seq<char>) -> Option<Seq<u8>>;

/// Relies on base64::encode (standard alphabet, padded): the output is a
/// function of the input bytes alone, drawn from an alphabet without newlines,
/// so it embeds in a single comment line.
#[verifier::external_body]
fn b64_encode(bytes: &Vec<u8>) -> (r: String)
    ensures
        r@ == b64_of(bytes@),
        forall|i: int| 0 <= i < r@.len() ==> r@[i] != '\n',
{
    base64::encode(bytes.as_slice())
}

/// Relies on base64::decode: its outcome is a function of the input text
/// alone, and it inverts base64::encode.
#[verifier::external_body]
fn b64_decode(s: &str) -> (r: Option<Vec<u8>>)
    ensures
        match r {
            Some(v) => b64_inverse(s@) == Some(v@),
            None => b64_inverse(s@) is None,
        },
        forall|p: Seq<u8>| s@ == b64_of(p) ==> r is Some && r.unwrap()@ == p,
{
    match base64::decode(s) {
        Ok(v) => Some(v),
        Err(_) => None,
    }
}

/// Relies on String::from_utf8: it succeeds exactly on valid UTF-8 and yields
/// the string those bytes encode.
#[verifier::external_body]
fn string_from_utf8(v: Vec<u8>) -> (r: Option<String>)
    ensures
        match r {
            Some(s) => valid_utf8(v@) && s@ == decode_utf8(v@),
            None => !valid_utf8(v@),
        },
{
    match String::from_utf8(v) {
        Ok(s) => Some(s),
        Err(_) => None,
    }
}

/// Compares a byte vector against the UTF-8 bytes of a literal.
fn bytes_eq_lit(v: &Vec<u8>, lit: &str) -> (r: bool)
    ensures
        r == (v@ == lit.spec_bytes()),
{
    let b = lit.as_bytes_vec();
    if v.len() != b.len() {
        return false;
    }
    let mut k: usize = 0;
    while k < b.len()
        invariant
            k <= b@.len(),
            v@.len() == b@.len(),
            b@ == lit.spec_bytes(),
            forall|m: int| 0 <= m < k ==> v@[m] == b@[m],
        decreases b@.len() - k,
    {
        if v[k] != b[k] {
            return false;
        }
        k += 1;
    }
    proof {
        assert(v@ =~= b@);
    }
    true
}

/// Parses the canonical JSON bytes of a record into its three raw fields,
/// following `spec_parse_record` exactly.
fn parse_record_x(bytes: &Vec<u8>) -> (r: Option<(Vec<u8>, Vec<u8>, Vec<u8>)>)
    ensures
        match spec_parse_record(bytes@) {
            Some(rb) => r matches Some(t) && t.0@ == rb.binary_name && t.1@ == rb.package_name
                && t.2@ == rb.node_version,
            None => r is None,
        },
{
    let i0 = match match_lit(bytes, 0, "{\"metadata_version\":\"") {
        Some(i) => i,
        None => {
            return None;
        },
    };
    let (tag, i1) = match parse_string_x(bytes, i0) {
        Some(p) => p,
        None => {
            return None;
        },
    };
    if !bytes_eq_lit(&tag, "v1") {
        return None;
    }
    let p1 = match match_lit(bytes, i1, ",\"binary_name\":\"") {
        Some(i) => i,
        None => {
            return None;
        },
    };
    let (bn, i2) = match parse_string_x(bytes, p1) {
        Some(p) => p,
        None => {
            return None;
        },
    };
    let p2 = match match_lit(bytes, i2, ",\"package_name\":\"") {
        Some(i) => i,
        None => {
            return None;
        },
    };
    let (pn, i3) = match parse_string_x(bytes, p2) {
        Some(p) => p,
        None => {
            return None;
        },
    };
    let p3 = match match_lit(bytes, i3, ",\"node_version\":\"") {
        Some(i) => i,
        None => {
            return None;
        },
    };
    let (nv, i4) = match parse_string_x(bytes, p3) {
        Some(p) => p,
        None => {
            return None;
        },
    };
    if i4 < bytes.len() && bytes.len() - i4 == 1 && bytes[i4] == B_CLOSE_BRACE {
        Some((bn, pn, nv))
    } else {
        None
    }
}

/// The failure of the metadata codec: the transport layer, the structured
/// form, or the version tag was not recognised.
#[derive(Debug, PartialEq, Eq)]
pub enum MetadataError {
    MalformedMetadata,
}

/// What `decode` recovers from a transport blob: the base64 layer undone, then
/// the canonical JSON record, then the fields read back from UTF-8.
pub open spec fn spec_decode(s: Seq<char>) -> Option<MetadataView> {
    match b64_inverse(s) {
        Some(bytes) => spec_record_of(bytes),
        None => None,
    }
}

impl Metadata {
    /// Serialises the record into a transport blob: canonical JSON under
    /// base64, a single line safe to embed in a shell comment.
    #[verifier::rlimit(60)]
    pub fn encode(&self) -> (r: String)
        ensures
            r@ == b64_of(json_of(self@)),
            forall|i: int| 0 <= i < r@.len() ==> r@[i] != '\n',
    {
        let Metadata::V1(v1) = self;
        let mut out: Vec<u8> = "{\"metadata_version\":\"".as_bytes_vec();
        let tagv = "v1".as_bytes_vec();
        escape_append(&mut out, &tagv);
        out.push(B_QUOTE);
        let mut l1 = ",\"binary_name\":\"".as_bytes_vec();
        out.append(&mut l1);
        let bnb = v1.binary_name.as_str().as_bytes_vec();
        escape_append(&mut out, &bnb);
        out.push(B_QUOTE);
        let mut l2 = ",\"package_name\":\"".as_bytes_vec();
        out.append(&mut l2);
        let pnb = v1.package_name.as_str().as_bytes_vec();
        escape_append(&mut out, &pnb);
        out.push(B_QUOTE);
        let mut l3 = ",\"node_version\":\"".as_bytes_vec();
        out.append(&mut l3);
        let nvb = v1.node_version.as_str().as_bytes_vec();
        escape_append(&mut out, &nvb);
        out.push(B_QUOTE);
        out.push(B_CLOSE_BRACE);
        proof {
            assert(out@ =~= json_of(self@));
        }
        b64_encode(&out)
    }

    /// Decodes a transport blob back into a record, failing closed on anything
    /// but a canonical encoding under a known version tag.  Decoding an
    /// encoding always succeeds and returns the encoded record: the round-trip
    /// law is the final clause.
    pub fn decode(s: &str) -> (r: Result<Metadata, MetadataError>)
        ensures
            match r {
                Ok(m) => spec_decode(s@) == Some(m@),
                Err(_) => spec_decode(s@) is None,
            },
            forall|mv: MetadataView| s@ == b64_of(json_of(mv)) ==> (r matches Ok(m) && m@ == mv),
    {
        let bytes = match b64_decode(s) {
            Some(b) => b,
            None => {
                return Err(MetadataError::MalformedMetadata);
            },
        };
        let (bn, pn, nv) = match parse_record_x(&bytes) {
            Some(t) => t,
            None => {
                proof {
                    assert forall|mv: MetadataView| s@ == b64_of(json_of(mv)) implies false by {
                        lemma_record_of_round_trip(mv);
                    }
                }
                return Err(MetadataError::MalformedMetadata);
            },
        };
        let ghost rb = spec_parse_record(bytes@).unwrap();
        let b = match string_from_utf8(bn) {
            Some(t) => t,
            None => {
                proof {
                    assert forall|mv: MetadataView| s@ == b64_of(json_of(mv)) implies false by {
                        lemma_record_of_round_trip(mv);
                        encode_utf8_valid_utf8(mv.binary_name);
                    }
                }
                return Err(MetadataError::MalformedMetadata);
            },
        };
        let p = match string_from_utf8(pn) {
            Some(t) => t,
            None => {
                proof {
                    assert forall|mv: MetadataView| s@ == b64_of(json_of(mv)) implies false by {
                        lemma_record_of_round_trip(mv);
                        encode_utf8_valid_utf8(mv.package_name);
                    }
                }
                return Err(MetadataError::MalformedMetadata);
            },
        };
        let n = match string_from_utf8(nv) {
            Some(t) => t,
            None => {
                proof {
                    assert forall|mv: MetadataView| s@ == b64_of(json_of(mv)) implies false by {
                        lemma_record_of_round_trip(mv);
                        encode_utf8_valid_utf8(mv.node_version);
                    }
                }
                return Err(MetadataError::MalformedMetadata);
            },
        };
        let m = Metadata::V1(
            MetadataV1 { binary_name: b, package_name: p, node_version: n },
        );
        proof {
            assert(spec_decode(s@) == Some(m@));
            assert forall|mv: MetadataView| s@ == b64_of(json_of(mv)) implies m@ == mv by {
                lemma_record_of_round_trip(mv);
            }
        }
        Ok(m)
    }
}

} // verus!
