//! Classification and content hashing of captured clipboard items.

use vstd::prelude::*;
use vstd::utf8::encode_utf8;
use crate::search::{code_like, is_url, looks_like_code, url_like};
use crate::text::{lemma_trim_idempotent, trim, trimmed};

verus! {

broadcast use vstd::string::group_string_axioms;

/// One item captured from the clipboard.
#[derive(Debug, Clone)]
pub enum CapturedContent {
    Text(String),
    Url(String),
    Code(String),
    Image { path: String, size: i64, thumbnail_path: Option<String> },
}

/// The content type label that `classify` gives `text`, and the text it keeps:
/// `text` trimmed, labelled a URL if it is one, else code if it looks like
/// code, else plain text.
pub open spec fn classified(text: Seq<char>) -> (Seq<char>, Seq<char>) {
    let t = trim(text);
    if url_like(t) {
        ("url"@, t)
    } else if code_like(t) {
        ("code"@, t)
    } else {
        ("text"@, t)
    }
}

/// Whether `c` is the variant that the label `label` names, holding `body`.
pub open spec fn labelled_content(label: Seq<char>, body: Seq<char>, c: CapturedContent) -> bool {
    match c {
        CapturedContent::Url(u) => label == "url"@ && u@ == body,
        CapturedContent::Code(u) => label == "code"@ && u@ == body,
        CapturedContent::Text(u) => label == "text"@ && u@ == body,
        CapturedContent::Image { .. } => false,
    }
}

/// Classification keeps the text trimmed; a URL is labelled a URL even when
/// it also looks like code; text that is no URL but looks like code is
/// labelled code; any other text is labelled text.
pub proof fn lemma_classification_order(text: Seq<char>)
    ensures
        classified(text).1 == trim(text),
        url_like(trim(text)) ==> classified(text).0 == "url"@,
        !url_like(trim(text)) && code_like(trim(text)) ==> classified(text).0 == "code"@,
        !url_like(trim(text)) && !code_like(trim(text)) ==> classified(text).0 == "text"@,
{
}

/// Classifies captured text as a URL, code or plain text.
pub fn classify(text: &str) -> (r: (&'static str, CapturedContent))
    ensures
        r.0@ == classified(text@).0,
        labelled_content(r.0@, classified(text@).1, r.1),
{
    let t = trimmed(text);
    if is_url(t.as_str()) {
        return ("url", CapturedContent::Url(t));
    }
    if looks_like_code(t.as_str()) {
        return ("code", CapturedContent::Code(t));
    }
    ("text", CapturedContent::Text(t))
}

/// The SHA-256 digest of `data`, as the `sha2` crate computes it.
pub uninterp spec fn sha256(data: Seq<u8>) -> Seq<u8>;

/// Trusted: `<sha2::Sha256 as digest::Digest>::digest`. The claim is that the
/// result is the digest named `sha256` of the input and is 32 bytes long (the
/// output size of `Sha256`); the digest itself is left unstated.
#[verifier::external_body]
fn sha256_digest(data: &[u8]) -> (r: Vec<u8>)
    ensures
        r@ == sha256(data@),
        r@.len() == 32,
{
    <sha2::Sha256 as sha2::Digest>::digest(data).to_vec()
}

/// The lowercase hexadecimal digit for `n < 16`.
pub open spec fn hex_digit(n: int) -> char {
    if n < 10 {
        ((48 + n) as u8) as char
    } else {
        ((87 + n) as u8) as char
    }
}

/// `data` written in lowercase hexadecimal, two digits per byte, high nibble first.
pub open spec fn lower_hex(data: Seq<u8>) -> Seq<char> {
    Seq::new(
        2 * data.len(),
        |i: int|
            if i % 2 == 0 {
                hex_digit(data[i / 2] as int / 16)
            } else {
                hex_digit(data[i / 2] as int % 16)
            },
    )
}

/// Whether `c` is one of `0`-`9`, `a`-`f`.
pub open spec fn is_lower_hex_digit(c: char) -> bool {
    let v = c as u32;
    (48 <= v <= 57) || (97 <= v <= 102)
}

/// Lowercase hex is twice as long as the data and made of hex digits only.
pub proof fn lemma_lower_hex_digits(data: Seq<u8>)
    ensures
        lower_hex(data).len() == 2 * data.len(),
        forall|i: int| 0 <= i < lower_hex(data).len() ==> is_lower_hex_digit(#[trigger] lower_hex(data)[i]),
{
    assert forall|i: int| 0 <= i < lower_hex(data).len() implies is_lower_hex_digit(
        #[trigger] lower_hex(data)[i],
    ) by {
        let b = data[i / 2] as int;
        assert(0 <= b / 16 < 16 && 0 <= b % 16 < 16);
    }
}

/// Reclassifying the content that `classify` kept gives the same label and content.
pub proof fn lemma_classify_idempotent(text: Seq<char>)
    ensures
        classified(classified(text).1) == classified(text),
{
    lemma_trim_idempotent(text);
}

/// The characters of an optional text, none when it is absent.
pub open spec fn or_empty(s: Option<Seq<char>>) -> Seq<char> {
    match s {
        Some(t) => t,
        None => seq![],
    }
}

proof fn lemma_encode_utf8_concat(a: Seq<char>, b: Seq<char>)
    ensures
        encode_utf8(a + b) == encode_utf8(a) + encode_utf8(b),
    decreases a.len(),
{
    if a.len() == 0 {
        assert(a + b == b);
    } else {
        lemma_encode_utf8_concat(a.drop_first(), b);
        assert((a + b).drop_first() == a.drop_first() + b);
        assert((a + b)[0] == a[0]);
    }
}

/// The hash of an item is the hash of its type, text and blob path written
/// one after the other: every part that is present counts, in that order,
/// the blob path too when a text is given.
pub proof fn lemma_hash_of_concatenation(
    content_type: Seq<char>,
    text: Option<Seq<char>>,
    blob_path: Option<Seq<char>>,
)
    ensures
        content_hash(content_type, text, blob_path) == content_hash(
            content_type + or_empty(text) + or_empty(blob_path),
            None,
            None,
        ),
{
    lemma_encode_utf8_concat(content_type, or_empty(text));
    lemma_encode_utf8_concat(content_type + or_empty(text), or_empty(blob_path));
    assert(encode_utf8(Seq::<char>::empty()) == Seq::<u8>::empty());
    assert(opt_utf8(text) == encode_utf8(or_empty(text)));
    assert(opt_utf8(blob_path) == encode_utf8(or_empty(blob_path)));
    let whole = content_type + or_empty(text) + or_empty(blob_path);
    assert(hash_input(whole, None, None) == encode_utf8(whole));
    assert(hash_input(content_type, text, blob_path) == encode_utf8(whole));
}

/// Trusted: `hex::encode`, which writes each byte as two lowercase hex digits,
/// high nibble first (the crate's source: table `0123456789abcdef`, `byte >> 4`
/// then `byte & 0x0F`).
#[verifier::external_body]
fn hex_encode(data: &[u8]) -> (r: String)
    ensures
        r@ == lower_hex(data@),
{
    hex::encode(data)
}

/// The UTF-8 bytes of an optional text, none when it is absent.
pub open spec fn opt_utf8(s: Option<Seq<char>>) -> Seq<u8> {
    match s {
        Some(t) => encode_utf8(t),
        None => seq![],
    }
}

/// The characters of an optional string slice.
pub open spec fn opt_str_chars(s: Option<&str>) -> Option<Seq<char>> {
    match s {
        Some(t) => Some(t@),
        None => None,
    }
}

/// The bytes that are hashed for a content item: its type, then its text, then
/// its blob path, each in UTF-8, with nothing between them.
pub open spec fn hash_input(
    content_type: Seq<char>,
    text: Option<Seq<char>>,
    blob_path: Option<Seq<char>>,
) -> Seq<u8> {
    encode_utf8(content_type) + opt_utf8(text) + opt_utf8(blob_path)
}

/// The content hash: lowercase hex of the SHA-256 digest of `hash_input`.
pub open spec fn content_hash(
    content_type: Seq<char>,
    text: Option<Seq<char>>,
    blob_path: Option<Seq<char>>,
) -> Seq<char> {
    lower_hex(sha256(hash_input(content_type, text, blob_path)))
}

fn push_bytes(v: &mut Vec<u8>, b: &[u8])
    ensures
        final(v)@ == old(v)@ + b@,
{
    let mut i: usize = 0;
    while i < b.len()
        invariant
            i <= b@.len(),
            v@ == old(v)@ + b@.subrange(0, i as int),
        decreases b@.len() - i,
    {
        v.push(b[i]);
        assert(b@.subrange(0, i + 1) == b@.subrange(0, i as int).push(b@[i as int]));
        i = i + 1;
    }
    assert(b@.subrange(0, b@.len() as int) == b@);
}

/// The hash that identifies a content item: its type, its text and its blob
/// path, hashed with SHA-256 and written in lowercase hex.
pub fn hash_content(content_type: &str, text: Option<&str>, blob_path: Option<&str>) -> (r: String)
    ensures
        r@ == content_hash(content_type@, opt_str_chars(text), opt_str_chars(blob_path)),
        r@.len() == 64,
        forall|i: int| 0 <= i < r@.len() ==> is_lower_hex_digit(#[trigger] r@[i]),
{
    let mut data: Vec<u8> = Vec::new();
    push_bytes(&mut data, content_type.as_bytes());
    if let Some(t) = text {
        push_bytes(&mut data, t.as_bytes());
    }
    if let Some(p) = blob_path {
        push_bytes(&mut data, p.as_bytes());
    }
    assert(data@ == hash_input(content_type@, opt_str_chars(text), opt_str_chars(blob_path)));
    let digest = sha256_digest(data.as_slice());
    let r = hex_encode(digest.as_slice());
    proof {
        lemma_lower_hex_digits(digest@);
    }
    r
}

} // verus!
