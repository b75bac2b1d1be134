//! Search query parsing and the content heuristics that the clipboard
//! classifier relies on.

use vstd::prelude::*;
use crate::text::{
    lemma_split_append_word,
    is_word, lemma_split_gives_words, lemma_split_join,
    is_white_space, starts_with,
    chars_contain, contains, first_line_spans, first_lines, trim, trimmed,
    chars_eq_ignore_ascii_case, chars_of, eq_ignore_ascii_case, join, join_spans, range_equals,
    range_starts_with, spans_within, span_texts, split_ws, split_whitespace_spans, string_from_range,
    strip_prefix,
};

verus! {

broadcast use vstd::string::group_string_axioms;

/// A search query split into its filters and its free text.
#[derive(Debug)]
pub struct ParsedQuery {
    pub text: Option<String>,
    pub device: Option<String>,
    pub content_type: Option<String>,
    pub tag: Option<String>,
    pub is_pinned: bool,
    pub is_favorite: bool,
    pub is_snippet: bool,
    pub date_today: bool,
}

/// The mathematical value of a [`ParsedQuery`].
pub struct QueryModel {
    pub text: Option<Seq<char>>,
    pub device: Option<Seq<char>>,
    pub content_type: Option<Seq<char>>,
    pub tag: Option<Seq<char>>,
    pub is_pinned: bool,
    pub is_favorite: bool,
    pub is_snippet: bool,
    pub date_today: bool,
}

/// The characters of an optional string.
pub open spec fn opt_chars(o: Option<String>) -> Option<Seq<char>> {
    match o {
        Some(s) => Some(s@),
        None => None,
    }
}

impl View for ParsedQuery {
    type V = QueryModel;

    open spec fn view(&self) -> QueryModel {
        QueryModel {
            text: opt_chars(self.text),
            device: opt_chars(self.device),
            content_type: opt_chars(self.content_type),
            tag: opt_chars(self.tag),
            is_pinned: self.is_pinned,
            is_favorite: self.is_favorite,
            is_snippet: self.is_snippet,
            date_today: self.date_today,
        }
    }
}

/// The query with no filter and no text.
pub open spec fn empty_query() -> QueryModel {
    QueryModel {
        text: None,
        device: None,
        content_type: None,
        tag: None,
        is_pinned: false,
        is_favorite: false,
        is_snippet: false,
        date_today: false,
    }
}

impl Default for ParsedQuery {
    fn default() -> (r: ParsedQuery)
        ensures
            r@ == empty_query(),
    {
        ParsedQuery {
            text: None,
            device: None,
            content_type: None,
            tag: None,
            is_pinned: false,
            is_favorite: false,
            is_snippet: false,
            date_today: false,
        }
    }
}

/// The canonical name of a device: any ASCII casing of `mac` or `macos`
/// is `macos`, of `win` or `windows` is `windows`; other names stay as they are.
pub open spec fn normalized_device(v: Seq<char>) -> Seq<char> {
    if eq_ignore_ascii_case(v, "mac"@) || eq_ignore_ascii_case(v, "macos"@) {
        "macos"@
    } else if eq_ignore_ascii_case(v, "win"@) || eq_ignore_ascii_case(v, "windows"@) {
        "windows"@
    } else {
        v
    }
}

/// The canonical name of the device `val`.
pub fn normalize_device(val: &str) -> (r: String)
    ensures
        r@ == normalized_device(val@),
{
    let v = chars_of(val);
    if chars_eq_ignore_ascii_case(&v, &chars_of("mac")) || chars_eq_ignore_ascii_case(
        &v,
        &chars_of("macos"),
    ) {
        "macos".to_string()
    } else if chars_eq_ignore_ascii_case(&v, &chars_of("win")) || chars_eq_ignore_ascii_case(
        &v,
        &chars_of("windows"),
    ) {
        "windows".to_string()
    } else {
        val.to_string()
    }
}

/// Normalising a device name twice changes nothing more than once.
pub proof fn lemma_normalize_device_idempotent(v: Seq<char>)
    ensures
        normalized_device(normalized_device(v)) == normalized_device(v),
{
    reveal_strlit("mac");
    reveal_strlit("macos");
    reveal_strlit("win");
    reveal_strlit("windows");
    let m = "macos"@;
    let w = "windows"@;
    assert(eq_ignore_ascii_case(m, m));
    assert(!eq_ignore_ascii_case(m, "mac"@));
    assert(!eq_ignore_ascii_case(w, "mac"@));
    assert(!eq_ignore_ascii_case(w, "macos"@));
    assert(!eq_ignore_ascii_case(w, "win"@));
    assert(eq_ignore_ascii_case(w, w));
}

/// The effect of one word of a query on the filters read so far and on the
/// free words collected so far.
pub open spec fn apply_token(q: QueryModel, free: Seq<Seq<char>>, tok: Seq<char>) -> (
    QueryModel,
    Seq<Seq<char>>,
) {
    if strip_prefix(tok, "device:"@) is Some {
        (QueryModel { device: Some(normalized_device(strip_prefix(tok, "device:"@)->0)), ..q }, free)
    } else if strip_prefix(tok, "type:"@) is Some {
        (QueryModel { content_type: Some(strip_prefix(tok, "type:"@)->0), ..q }, free)
    } else if strip_prefix(tok, "tag:"@) is Some {
        (QueryModel { tag: Some(strip_prefix(tok, "tag:"@)->0), ..q }, free)
    } else if tok == "is:pinned"@ {
        (QueryModel { is_pinned: true, ..q }, free)
    } else if tok == "is:favorite"@ || tok == "is:favourited"@ {
        (QueryModel { is_favorite: true, ..q }, free)
    } else if tok == "is:snippet"@ {
        (QueryModel { is_snippet: true, ..q }, free)
    } else if tok == "today"@ {
        (QueryModel { date_today: true, ..q }, free)
    } else {
        (q, free.push(tok))
    }
}

/// The filters and free words of a sequence of words, read left to right.
pub open spec fn fold_tokens(toks: Seq<Seq<char>>) -> (QueryModel, Seq<Seq<char>>)
    decreases toks.len(),
{
    if toks.len() == 0 {
        (empty_query(), seq![])
    } else {
        let prev = fold_tokens(toks.drop_last());
        apply_token(prev.0, prev.1, toks.last())
    }
}

/// The parse of a whole query: its words read left to right, the free words
/// joined by single spaces into the text, which is absent when there are none.
pub open spec fn parsed_query(input: Seq<char>) -> QueryModel {
    let r = fold_tokens(split_ws(input));
    QueryModel {
        text: if r.1.len() > 0 {
            Some(join(r.1, " "@))
        } else {
            None
        },
        ..r.0
    }
}

/// Queries with the same words parse alike, however they are spaced.
pub proof fn lemma_parse_query_spacing(a: Seq<char>, b: Seq<char>)
    requires
        split_ws(a) == split_ws(b),
    ensures
        parsed_query(a) == parsed_query(b),
{
}

/// A word that is no filter: it lands in the free text.
pub open spec fn is_free_word(t: Seq<char>) -> bool {
    &&& strip_prefix(t, "device:"@) is None
    &&& strip_prefix(t, "type:"@) is None
    &&& strip_prefix(t, "tag:"@) is None
    &&& t != "is:pinned"@
    &&& t != "is:favorite"@
    &&& t != "is:favourited"@
    &&& t != "is:snippet"@
    &&& t != "today"@
}

proof fn lemma_fold_free_words(toks: Seq<Seq<char>>)
    requires
        forall|j: int| 0 <= j < toks.len() ==> is_word(#[trigger] toks[j]),
    ensures
        forall|k: int|
            0 <= k < fold_tokens(toks).1.len() ==> is_word(#[trigger] fold_tokens(toks).1[k])
                && is_free_word(fold_tokens(toks).1[k]),
    decreases toks.len(),
{
    if toks.len() > 0 {
        let prev = toks.drop_last();
        assert forall|j: int| 0 <= j < prev.len() implies is_word(#[trigger] prev[j]) by {
            assert(prev[j] == toks[j]);
        }
        lemma_fold_free_words(prev);
        let p = fold_tokens(prev);
        let last = toks.last();
        assert(is_word(toks[toks.len() - 1]));
        assert(fold_tokens(toks) == apply_token(p.0, p.1, last));
        if is_free_word(last) {
            let f = fold_tokens(toks).1;
            assert(f == p.1.push(last));
            assert forall|k: int| 0 <= k < f.len() implies is_word(#[trigger] f[k])
                && is_free_word(f[k]) by {
                if k < p.1.len() {
                    assert(f[k] == p.1[k]);
                }
            }
        } else {
            assert(fold_tokens(toks).1 == p.1);
        }
    } else {
        assert(fold_tokens(toks).1.len() == 0);
    }
}

proof fn lemma_fold_free_only(ws: Seq<Seq<char>>)
    requires
        forall|k: int| 0 <= k < ws.len() ==> is_free_word(#[trigger] ws[k]),
    ensures
        fold_tokens(ws) == (empty_query(), ws),
    decreases ws.len(),
{
    if ws.len() > 0 {
        let prev = ws.drop_last();
        assert forall|k: int| 0 <= k < prev.len() implies is_free_word(#[trigger] prev[k]) by {
            assert(prev[k] == ws[k]);
        }
        lemma_fold_free_only(prev);
        assert(is_free_word(ws[ws.len() - 1]));
        assert(prev.push(ws.last()) == ws);
    }
}

/// The query that is only the free text `t`.
pub open spec fn text_only_query(t: Seq<char>) -> QueryModel {
    QueryModel { text: Some(t), ..empty_query() }
}

/// The free text of a query parses back to itself, with no filter set.
pub proof fn lemma_free_text_reparses(input: Seq<char>)
    ensures
        parsed_query(input).text matches Some(t) ==> parsed_query(t) == text_only_query(t),
{
    let toks = split_ws(input);
    let free = fold_tokens(toks).1;
    if free.len() > 0 {
        lemma_split_gives_words(input);
        lemma_fold_free_words(toks);
        lemma_split_join(free);
        lemma_fold_free_only(free);
    }
}

proof fn lemma_prefixed_word(p: Seq<char>, v: Seq<char>)
    requires
        p.len() > 0,
        forall|i: int| 0 <= i < p.len() ==> !is_white_space(#[trigger] p[i]),
        forall|i: int| 0 <= i < v.len() ==> !is_white_space(#[trigger] v[i]),
    ensures
        is_word(p + v),
        strip_prefix(p + v, p) == Some(v),
{
    let w = p + v;
    assert forall|i: int| 0 <= i < w.len() implies !is_white_space(#[trigger] w[i]) by {
        if i < p.len() {
            assert(w[i] == p[i]);
        } else {
            assert(w[i] == v[i - p.len()]);
        }
    }
    assert(w.subrange(0, p.len() as int) == p);
    assert(w.subrange(p.len() as int, w.len() as int) == v);
}

proof fn lemma_append_word(input: Seq<char>, w: Seq<char>)
    requires
        is_word(w),
    ensures
        fold_tokens(split_ws(input + " "@ + w)) == apply_token(
            fold_tokens(split_ws(input)).0,
            fold_tokens(split_ws(input)).1,
            w,
        ),
{
    lemma_split_append_word(input, w);
    let toks = split_ws(input).push(w);
    assert(toks.drop_last() == split_ws(input));
    assert(toks.last() == w);
}

/// The last `tag:` word of a query sets its tag, whatever came before it.
pub proof fn lemma_last_tag_wins(input: Seq<char>, v: Seq<char>)
    requires
        forall|i: int| 0 <= i < v.len() ==> !is_white_space(#[trigger] v[i]),
    ensures
        parsed_query(input + " "@ + ("tag:"@ + v)).tag == Some(v),
{
    reveal_strlit("tag:");
    reveal_strlit("device:");
    reveal_strlit("type:");
    let w = "tag:"@ + v;
    lemma_prefixed_word("tag:"@, v);
    lemma_append_word(input, w);
    assert(w[0] == 't');
    assert(w[1] == 'a');
    assert(!starts_with(w, "device:"@)) by {
        if starts_with(w, "device:"@) {
            assert(w.subrange(0, 7)[0] == "device:"@[0]);
        }
    }
    assert(!starts_with(w, "type:"@)) by {
        if starts_with(w, "type:"@) {
            assert(w.subrange(0, 5)[1] == "type:"@[1]);
        }
    }
}

/// The last `type:` word of a query sets its content type, whatever came before it.
pub proof fn lemma_last_type_wins(input: Seq<char>, v: Seq<char>)
    requires
        forall|i: int| 0 <= i < v.len() ==> !is_white_space(#[trigger] v[i]),
    ensures
        parsed_query(input + " "@ + ("type:"@ + v)).content_type == Some(v),
{
    reveal_strlit("device:");
    reveal_strlit("type:");
    let w = "type:"@ + v;
    lemma_prefixed_word("type:"@, v);
    lemma_append_word(input, w);
    assert(w[0] == 't');
    assert(!starts_with(w, "device:"@)) by {
        if starts_with(w, "device:"@) {
            assert(w.subrange(0, 7)[0] == "device:"@[0]);
        }
    }
}

/// The last `device:` word of a query sets its device, normalised, whatever
/// came before it.
pub proof fn lemma_last_device_wins(input: Seq<char>, v: Seq<char>)
    requires
        forall|i: int| 0 <= i < v.len() ==> !is_white_space(#[trigger] v[i]),
    ensures
        parsed_query(input + " "@ + ("device:"@ + v)).device == Some(normalized_device(v)),
{
    reveal_strlit("device:");
    let w = "device:"@ + v;
    lemma_prefixed_word("device:"@, v);
    lemma_append_word(input, w);
}

/// A flag word anywhere sets its flag: here, appended last.
pub proof fn lemma_flag_words(input: Seq<char>)
    ensures
        parsed_query(input + " "@ + "is:pinned"@).is_pinned,
        parsed_query(input + " "@ + "is:favorite"@).is_favorite,
        parsed_query(input + " "@ + "is:favourited"@).is_favorite,
        parsed_query(input + " "@ + "is:snippet"@).is_snippet,
        parsed_query(input + " "@ + "today"@).date_today,
{
    reveal_strlit("device:");
    reveal_strlit("type:");
    reveal_strlit("tag:");
    reveal_strlit("is:pinned");
    reveal_strlit("is:favorite");
    reveal_strlit("is:favourited");
    reveal_strlit("is:snippet");
    reveal_strlit("today");
    let ws = seq!["is:pinned"@, "is:favorite"@, "is:favourited"@, "is:snippet"@, "today"@];
    assert forall|k: int| 0 <= k < ws.len() implies is_word(#[trigger] ws[k]) && strip_prefix(
        ws[k],
        "device:"@,
    ) is None && strip_prefix(ws[k], "type:"@) is None && strip_prefix(ws[k], "tag:"@) is None by {
        let w = ws[k];
        assert(w[0] == 'i' || w[0] == 't');
        assert(w.len() < 7 || w[1] == 's') ;
        if starts_with(w, "device:"@) {
            assert(w.subrange(0, 7)[0] == "device:"@[0]);
        }
        if starts_with(w, "type:"@) {
            assert(w.subrange(0, 5)[0] == "type:"@[0]);
            assert(w.subrange(0, 5)[1] == "type:"@[1]);
        }
        if starts_with(w, "tag:"@) {
            assert(w.subrange(0, 4)[0] == "tag:"@[0]);
            assert(w.subrange(0, 4)[1] == "tag:"@[1]);
        }
    }
    assert(ws[0] == "is:pinned"@);
    lemma_append_word(input, "is:pinned"@);
    assert(ws[1] == "is:favorite"@);
    lemma_append_word(input, "is:favorite"@);
    assert(ws[2] == "is:favourited"@);
    lemma_append_word(input, "is:favourited"@);
    assert(ws[3] == "is:snippet"@);
    lemma_append_word(input, "is:snippet"@);
    assert(ws[4] == "today"@);
    lemma_append_word(input, "today"@);
}

/// A word that is no filter, appended to a query, goes at the end of its free
/// text after a single space, and leaves every filter as it was.
pub proof fn lemma_free_word_appends(input: Seq<char>, w: Seq<char>)
    requires
        is_word(w),
        is_free_word(w),
    ensures
        parsed_query(input + " "@ + w).text == Some(
            match parsed_query(input).text {
                Some(t) => t + " "@ + w,
                None => w,
            },
        ),
        parsed_query(input + " "@ + w) == (QueryModel {
            text: parsed_query(input + " "@ + w).text,
            ..parsed_query(input)
        }),
{
    lemma_append_word(input, w);
    let f = fold_tokens(split_ws(input)).1;
    if f.len() > 0 {
        assert(f.push(w).drop_last() == f);
    } else {
        assert(f.push(w).len() == 1);
    }
}

/// Parses a search query into its filters and its free text.
pub fn parse_query(input: &str) -> (r: ParsedQuery)
    ensures
        r@ == parsed_query(input@),
{
    let cs = chars_of(input);
    let spans = split_whitespace_spans(&cs);
    let ghost toks = split_ws(cs@);
    let device_p = chars_of("device:");
    let type_p = chars_of("type:");
    let tag_p = chars_of("tag:");
    let pinned = chars_of("is:pinned");
    let favorite = chars_of("is:favorite");
    let favourited = chars_of("is:favourited");
    let snippet = chars_of("is:snippet");
    let today = chars_of("today");
    let mut parsed = ParsedQuery::default();
    let mut free: Vec<(usize, usize)> = Vec::new();
    let mut k: usize = 0;
    while k < spans.len()
        invariant
            cs@ == input@,
            spans_within(cs@, spans@),
            toks == span_texts(cs@, spans@),
            toks == split_ws(cs@),
            device_p@ == "device:"@,
            type_p@ == "type:"@,
            tag_p@ == "tag:"@,
            pinned@ == "is:pinned"@,
            favorite@ == "is:favorite"@,
            favourited@ == "is:favourited"@,
            snippet@ == "is:snippet"@,
            today@ == "today"@,
            k <= spans@.len(),
            spans_within(cs@, free@),
            parsed.text is None,
            (parsed@, span_texts(cs@, free@)) == fold_tokens(toks.take(k as int)),
        decreases spans@.len() - k,
    {
        let (lo, hi) = spans[k];
        assert(spans@[k as int].0 <= spans@[k as int].1 <= cs@.len());
        let ghost tok = cs@.subrange(lo as int, hi as int);
        assert(toks[k as int] == tok);
        assert(toks.take(k + 1).drop_last() == toks.take(k as int));
        assert(toks.take(k + 1).last() == tok);
        let ghost prev = fold_tokens(toks.take(k as int));
        if range_starts_with(&cs, lo, hi, &device_p) {
            assert(cs@.subrange((lo + device_p@.len()) as int, hi as int) == tok.subrange(
                device_p@.len() as int,
                tok.len() as int,
            ));
            let val = string_from_range(&cs, lo + device_p.len(), hi);
            parsed.device = Some(normalize_device(val.as_str()));
        } else if range_starts_with(&cs, lo, hi, &type_p) {
            assert(cs@.subrange((lo + type_p@.len()) as int, hi as int) == tok.subrange(
                type_p@.len() as int,
                tok.len() as int,
            ));
            parsed.content_type = Some(string_from_range(&cs, lo + type_p.len(), hi));
        } else if range_starts_with(&cs, lo, hi, &tag_p) {
            assert(cs@.subrange((lo + tag_p@.len()) as int, hi as int) == tok.subrange(
                tag_p@.len() as int,
                tok.len() as int,
            ));
            parsed.tag = Some(string_from_range(&cs, lo + tag_p.len(), hi));
        } else if range_equals(&cs, lo, hi, &pinned) {
            parsed.is_pinned = true;
        } else if range_equals(&cs, lo, hi, &favorite) || range_equals(&cs, lo, hi, &favourited) {
            parsed.is_favorite = true;
        } else if range_equals(&cs, lo, hi, &snippet) {
            parsed.is_snippet = true;
        } else if range_equals(&cs, lo, hi, &today) {
            parsed.date_today = true;
        } else {
            let ghost old_free = free@;
            free.push((lo, hi));
            assert(span_texts(cs@, free@) == span_texts(cs@, old_free).push(tok));
        }
        k = k + 1;
    }
    assert(toks.take(spans@.len() as int) == toks);
    if free.len() > 0 {
        parsed.text = Some(join_spans(&cs, &free, " "));
    }
    parsed
}


/// Declares `regex::Regex` to Verus; its values are opaque.
#[verifier::external_type_specification]
#[verifier::external_body]
pub struct ExRegex(regex::Regex);

/// Whether `regex::Regex::new` accepts `pattern`.
pub uninterp spec fn regex_compiles(pattern: Seq<char>) -> bool;

/// What `regex::Regex::is_match` answers for a regex built from `pattern`
/// and the haystack `haystack`.
pub uninterp spec fn regex_is_match(pattern: Seq<char>, haystack: Seq<char>) -> bool;

/// A compiled regular expression together with the pattern it came from.
pub(crate) struct CompiledRegex {
    re: regex::Regex,
    pattern: Ghost<Seq<char>>,
}

impl CompiledRegex {
    /// The pattern this regex was compiled from.
    pub closed spec fn pattern(&self) -> Seq<char> {
        self.pattern@
    }

    /// Trusted: `regex::Regex::new`. The claim is that it succeeds exactly
    /// on the patterns named by `regex_compiles`, a function of the pattern
    /// alone, among them the URL pattern, which is well formed by the crate's
    /// documented syntax; which other patterns those are is left to the crate.
    #[verifier::external_body]
    pub(crate) fn new(pattern: &str) -> (r: Option<CompiledRegex>)
        ensures
            r is Some <==> regex_compiles(pattern@),
            pattern@ == url_pattern() ==> r is Some,
            r matches Some(c) ==> c.pattern() == pattern@,
    {
        match regex::Regex::new(pattern) {
            Ok(re) => Some(CompiledRegex { re, pattern: Ghost(pattern@) }),
            Err(_) => None,
        }
    }

    /// Trusted: `regex::Regex::is_match`. The claim is that its answer is a
    /// function of the pattern and the haystack, named `regex_is_match`, and
    /// that for the URL pattern it is `url_shaped`, as the crate's documented
    /// syntax reads that pattern; for other patterns it is left to the crate.
    #[verifier::external_body]
    pub(crate) fn is_match(&self, haystack: &str) -> (r: bool)
        ensures
            r == regex_is_match(self.pattern(), haystack@),
            self.pattern() == url_pattern() ==> r == url_shaped(haystack@),
    {
        self.re.is_match(haystack)
    }
}

/// The pattern that recognises a URL: `http` or `https`, `://`, then one or
/// more characters none of which is white space, filling the whole text.
pub open spec fn url_pattern() -> Seq<char> {
    "^https?://[^\\s]+$"@
}

/// Whether `s` begins with the scheme `p` and goes on with one or more
/// characters, none of them white space.
pub open spec fn scheme_then_word(s: Seq<char>, p: Seq<char>) -> bool {
    &&& starts_with(s, p)
    &&& s.len() > p.len()
    &&& forall|i: int| p.len() <= i < s.len() ==> !is_white_space(#[trigger] s[i])
}

/// What the URL pattern matches, by the regex crate's documented syntax:
/// `^` and `$` anchor the whole haystack, `https?://` is `http://` or
/// `https://`, and `[^\s]+` is one or more characters outside Unicode
/// `White_Space` (the crate's `\s`).
pub open spec fn url_shaped(s: Seq<char>) -> bool {
    scheme_then_word(s, "http://"@) || scheme_then_word(s, "https://"@)
}

/// `http://` or `https://` followed by a word is a URL, and a URL is one of
/// these schemes followed by a word.
pub proof fn lemma_url_shape(w: Seq<char>)
    requires
        is_word(w),
    ensures
        url_shaped("http://"@ + w),
        url_shaped("https://"@ + w),
{
    reveal_strlit("http://");
    reveal_strlit("https://");
    let a = "http://"@ + w;
    let b = "https://"@ + w;
    assert(a.subrange(0, 7) == "http://"@);
    assert(b.subrange(0, 8) == "https://"@);
    assert forall|i: int| 7 <= i < a.len() implies !is_white_space(#[trigger] a[i]) by {
        assert(a[i] == w[i - 7]);
    }
    assert forall|i: int| 8 <= i < b.len() implies !is_white_space(#[trigger] b[i]) by {
        assert(b[i] == w[i - 8]);
    }
}

/// A text that starts with neither scheme is no URL.
pub proof fn lemma_not_url(s: Seq<char>)
    requires
        !starts_with(s, "http://"@) && !starts_with(s, "https://"@),
    ensures
        !url_shaped(s),
{
}

/// Whether `s`, trimmed, is a URL.
pub open spec fn url_like(s: Seq<char>) -> bool {
    url_shaped(trim(s))
}

/// Whether `text`, trimmed, is a URL.
pub fn is_url(text: &str) -> (r: bool)
    ensures
        r == url_like(text@),
{
    let t = trimmed(text);
    match CompiledRegex::new("^https?://[^\\s]+$") {
        Some(re) => re.is_match(t.as_str()),
        None => false,
    }
}

/// Whether `s` holds a piece of text typical of source code somewhere in its
/// first three lines, those lines joined with `'\n'`.
pub open spec fn code_like(s: Seq<char>) -> bool {
    let head = join(first_lines(s, 3), "\n"@);
    ||| contains(head, "fn "@)
    ||| contains(head, "function "@)
    ||| contains(head, "def "@)
    ||| contains(head, "class "@)
    ||| contains(head, "import "@)
    ||| contains(head, "const "@)
    ||| contains(head, "let "@)
    ||| contains(head, "public "@)
    ||| contains(head, "private "@)
    ||| contains(head, "#include"@)
    ||| contains(head, "<?php"@)
    ||| contains(head, "SELECT "@)
    ||| contains(head, "INSERT "@)
}

/// Whether `ind` is one of the thirteen pieces of text that mark source code.
pub open spec fn is_code_indicator(ind: Seq<char>) -> bool {
    ||| ind == "fn "@
    ||| ind == "function "@
    ||| ind == "def "@
    ||| ind == "class "@
    ||| ind == "import "@
    ||| ind == "const "@
    ||| ind == "let "@
    ||| ind == "public "@
    ||| ind == "private "@
    ||| ind == "#include"@
    ||| ind == "<?php"@
    ||| ind == "SELECT "@
    ||| ind == "INSERT "@
}

/// A text looks like code when its first three lines, joined with `'\n'`,
/// hold any of the thirteen code indicators.
pub proof fn lemma_indicator_means_code(s: Seq<char>, ind: Seq<char>)
    requires
        is_code_indicator(ind),
        contains(join(first_lines(s, 3), "\n"@), ind),
    ensures
        code_like(s),
{
}

/// A text looks like code only when its first three lines, joined with
/// `'\n'`, hold one of the thirteen code indicators.
pub proof fn lemma_code_means_indicator(s: Seq<char>)
    requires
        code_like(s),
    ensures
        exists|ind: Seq<char>|
            is_code_indicator(ind) && contains(join(first_lines(s, 3), "\n"@), ind),
{
    let head = join(first_lines(s, 3), "\n"@);
    if contains(head, "fn "@) {
        assert(is_code_indicator("fn "@));
    } else if contains(head, "function "@) {
        assert(is_code_indicator("function "@));
    } else if contains(head, "def "@) {
        assert(is_code_indicator("def "@));
    } else if contains(head, "class "@) {
        assert(is_code_indicator("class "@));
    } else if contains(head, "import "@) {
        assert(is_code_indicator("import "@));
    } else if contains(head, "const "@) {
        assert(is_code_indicator("const "@));
    } else if contains(head, "let "@) {
        assert(is_code_indicator("let "@));
    } else if contains(head, "public "@) {
        assert(is_code_indicator("public "@));
    } else if contains(head, "private "@) {
        assert(is_code_indicator("private "@));
    } else if contains(head, "#include"@) {
        assert(is_code_indicator("#include"@));
    } else if contains(head, "<?php"@) {
        assert(is_code_indicator("<?php"@));
    } else if contains(head, "SELECT "@) {
        assert(is_code_indicator("SELECT "@));
    } else {
        assert(is_code_indicator("INSERT "@));
    }
}

/// Whether `text` looks like source code.
pub fn looks_like_code(text: &str) -> (r: bool)
    ensures
        r == code_like(text@),
{
    let cs = chars_of(text);
    let spans = first_line_spans(&cs, 3);
    let head_string = join_spans(&cs, &spans, "\n");
    let head = chars_of(head_string.as_str());
    chars_contain(&head, &chars_of("fn ")) || chars_contain(&head, &chars_of("function "))
        || chars_contain(&head, &chars_of("def ")) || chars_contain(&head, &chars_of("class "))
        || chars_contain(&head, &chars_of("import ")) || chars_contain(&head, &chars_of("const "))
        || chars_contain(&head, &chars_of("let ")) || chars_contain(&head, &chars_of("public "))
        || chars_contain(&head, &chars_of("private ")) || chars_contain(
        &head,
        &chars_of("#include"),
    ) || chars_contain(&head, &chars_of("<?php")) || chars_contain(&head, &chars_of("SELECT "))
        || chars_contain(&head, &chars_of("INSERT "))
}

} // verus!
