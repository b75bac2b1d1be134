//! Character-level text operations used throughout the library, each proved
//! against a spec function over `Seq<char>`.

use vstd::prelude::*;

verus! {

broadcast use vstd::string::group_string_axioms;

/// Appends one character to a string.
/// Trusted: `String::push`, documented to append the given char to the end.
#[verifier::external_body]
pub(crate) fn push_char(s: &mut String, c: char)
    ensures
        final(s)@ == old(s)@.push(c),
{
    s.push(c)
}

/// The characters of `s`, in order.
pub fn chars_of(s: &str) -> (v: Vec<char>)
    ensures
        v@ == s@,
{
    let mut v: Vec<char> = Vec::new();
    for c in it: s.chars()
        invariant
            v@ == it.seq().take(it.index() as int),
            it.seq() == s@,
    {
        v.push(c);
    }
    v
}


/// A string holding the characters `cs[lo..hi]`.
pub fn string_from_range(cs: &Vec<char>, lo: usize, hi: usize) -> (r: String)
    requires
        lo <= hi <= cs@.len(),
    ensures
        r@ == cs@.subrange(lo as int, hi as int),
{
    let mut r = String::new();
    let mut i = lo;
    while i < hi
        invariant
            lo <= i <= hi <= cs@.len(),
            r@ == cs@.subrange(lo as int, i as int),
        decreases hi - i,
    {
        push_char(&mut r, cs[i]);
        assert(cs@.subrange(lo as int, i + 1) == cs@.subrange(lo as int, i as int).push(cs@[i as int]));
        i = i + 1;
    }
    r
}

/// Unicode `White_Space`: the characters that `char::is_whitespace` accepts.
pub open spec fn is_white_space(c: char) -> bool {
    let v = c as u32;
    ||| 0x09 <= v <= 0x0d
    ||| v == 0x20
    ||| v == 0x85
    ||| v == 0xa0
    ||| v == 0x1680
    ||| 0x2000 <= v <= 0x200a
    ||| v == 0x2028
    ||| v == 0x2029
    ||| v == 0x202f
    ||| v == 0x205f
    ||| v == 0x3000
}

/// Whether `c` is a Unicode white-space character.
pub fn white_space(c: char) -> (r: bool)
    ensures
        r == is_white_space(c),
{
    let v = c as u32;
    (0x09 <= v && v <= 0x0d) || v == 0x20 || v == 0x85 || v == 0xa0 || v == 0x1680 || (0x2000
        <= v && v <= 0x200a) || v == 0x2028 || v == 0x2029 || v == 0x202f || v == 0x205f || v
        == 0x3000
}

/// `s` without its leading white space.
pub open spec fn trim_start(s: Seq<char>) -> Seq<char>
    decreases s.len(),
{
    if s.len() > 0 && is_white_space(s[0]) {
        trim_start(s.drop_first())
    } else {
        s
    }
}

/// `s` without its trailing white space.
pub open spec fn trim_end(s: Seq<char>) -> Seq<char>
    decreases s.len(),
{
    if s.len() > 0 && is_white_space(s.last()) {
        trim_end(s.drop_last())
    } else {
        s
    }
}

/// `s` without leading and trailing white space, as `str::trim` gives it.
pub open spec fn trim(s: Seq<char>) -> Seq<char> {
    trim_end(trim_start(s))
}

proof fn lemma_trim_start_skip(s: Seq<char>, i: int)
    requires
        0 <= i < s.len(),
        is_white_space(s[i]),
    ensures
        trim_start(s.subrange(i, s.len() as int)) == trim_start(s.subrange(i + 1, s.len() as int)),
{
    assert(s.subrange(i, s.len() as int).drop_first() == s.subrange(i + 1, s.len() as int));
}

proof fn lemma_trim_end_skip(s: Seq<char>, lo: int, j: int)
    requires
        0 <= lo < j <= s.len(),
        is_white_space(s[j - 1]),
    ensures
        trim_end(s.subrange(lo, j)) == trim_end(s.subrange(lo, j - 1)),
{
    assert(s.subrange(lo, j).drop_last() == s.subrange(lo, j - 1));
}

proof fn lemma_trim_start_head(s: Seq<char>)
    ensures
        trim_start(s).len() > 0 ==> !is_white_space(trim_start(s)[0]),
    decreases s.len(),
{
    if s.len() > 0 && is_white_space(s[0]) {
        lemma_trim_start_head(s.drop_first());
    }
}

proof fn lemma_trim_end_prefix(s: Seq<char>)
    ensures
        trim_end(s).len() <= s.len(),
        trim_end(s) == s.subrange(0, trim_end(s).len() as int),
        trim_end(s).len() > 0 ==> !is_white_space(trim_end(s).last()),
    decreases s.len(),
{
    if s.len() > 0 && is_white_space(s.last()) {
        lemma_trim_end_prefix(s.drop_last());
        assert(s.drop_last().subrange(0, trim_end(s).len() as int) == s.subrange(
            0,
            trim_end(s).len() as int,
        ));
    } else {
        assert(s.subrange(0, s.len() as int) == s);
    }
}

proof fn lemma_trim_start_suffix(s: Seq<char>)
    ensures
        trim_start(s).len() <= s.len(),
        trim_start(s) == s.subrange(s.len() - trim_start(s).len(), s.len() as int),
        forall|k: int| 0 <= k < s.len() - trim_start(s).len() ==> is_white_space(#[trigger] s[k]),
    decreases s.len(),
{
    if s.len() > 0 && is_white_space(s[0]) {
        let t = s.drop_first();
        lemma_trim_start_suffix(t);
        assert(t.subrange(t.len() - trim_start(t).len(), t.len() as int) == s.subrange(
            s.len() - trim_start(s).len(),
            s.len() as int,
        ));
        assert forall|k: int| 0 <= k < s.len() - trim_start(s).len() implies is_white_space(
            #[trigger] s[k],
        ) by {
            if k > 0 {
                assert(s[k] == t[k - 1]);
            }
        }
    } else {
        assert(s.subrange(0, s.len() as int) == s);
    }
}

proof fn lemma_trim_end_tail(s: Seq<char>)
    ensures
        forall|k: int| trim_end(s).len() <= k < s.len() ==> is_white_space(#[trigger] s[k]),
    decreases s.len(),
{
    if s.len() > 0 && is_white_space(s.last()) {
        let t = s.drop_last();
        lemma_trim_end_tail(t);
        assert forall|k: int| trim_end(s).len() <= k < s.len() implies is_white_space(
            #[trigger] s[k],
        ) by {
            if k < t.len() {
                assert(s[k] == t[k]);
            }
        }
    }
}

/// Trimming removes white space at both ends and nothing else: the result is
/// a contiguous piece of the text, everything before and after it is white
/// space, and it neither begins nor ends with white space.
pub proof fn lemma_trim_shape(s: Seq<char>)
    ensures
        exists|i: int, j: int|
            0 <= i <= j <= s.len() && trim(s) == s.subrange(i, j) && (forall|k: int|
                0 <= k < i ==> is_white_space(#[trigger] s[k])) && (forall|k: int|
                j <= k < s.len() ==> is_white_space(#[trigger] s[k])),
        trim(s).len() > 0 ==> !is_white_space(trim(s)[0]) && !is_white_space(trim(s).last()),
{
    let ts = trim_start(s);
    let te = trim_end(ts);
    lemma_trim_start_suffix(s);
    lemma_trim_start_head(s);
    lemma_trim_end_prefix(ts);
    lemma_trim_end_tail(ts);
    let i = s.len() - ts.len();
    let j = i + te.len();
    assert(te == s.subrange(i, j));
    assert forall|k: int| j <= k < s.len() implies is_white_space(#[trigger] s[k]) by {
        assert(s[k] == ts[k - i]);
    }
    if te.len() > 0 {
        assert(te[0] == ts[0]);
    }
}

/// Trimming is idempotent: trimmed text has no white space left to remove.
pub proof fn lemma_trim_idempotent(s: Seq<char>)
    ensures
        trim(trim(s)) == trim(s),
{
    let t = trim_start(s);
    let u = trim_end(t);
    lemma_trim_start_head(s);
    lemma_trim_end_prefix(t);
    if u.len() > 0 {
        assert(u[0] == t[0]);
    }
    assert(trim_start(u) == u);
    assert(trim_end(u) == u);
}

/// The bounds `(lo, hi)` of `trim(cs)` within `cs`.
pub fn trim_bounds(cs: &Vec<char>) -> (r: (usize, usize))
    ensures
        r.0 <= r.1 <= cs@.len(),
        trim(cs@) == cs@.subrange(r.0 as int, r.1 as int),
{
    let n = cs.len();
    let mut i: usize = 0;
    assert(cs@.subrange(0, n as int) == cs@);
    while i < n && white_space(cs[i])
        invariant
            i <= n == cs@.len(),
            trim_start(cs@) == trim_start(cs@.subrange(i as int, n as int)),
        decreases n - i,
    {
        proof {
            lemma_trim_start_skip(cs@, i as int);
        }
        i = i + 1;
    }
    let mut j: usize = n;
    while j > i && white_space(cs[j - 1])
        invariant
            i <= j <= n == cs@.len(),
            trim_start(cs@) == cs@.subrange(i as int, n as int),
            trim_end(trim_start(cs@)) == trim_end(cs@.subrange(i as int, j as int)),
        decreases j,
    {
        proof {
            lemma_trim_end_skip(cs@, i as int, j as int);
        }
        j = j - 1;
    }
    (i, j)
}

/// The trimmed copy of `s`.
pub fn trimmed(s: &str) -> (r: String)
    ensures
        r@ == trim(s@),
{
    let cs = chars_of(s);
    let (lo, hi) = trim_bounds(&cs);
    string_from_range(&cs, lo, hi)
}


/// The end of the run of non-white-space characters that starts at `i`.
pub open spec fn word_end(s: Seq<char>, i: int) -> int
    decreases s.len() - i,
{
    if 0 <= i < s.len() && !is_white_space(s[i]) {
        word_end(s, i + 1)
    } else {
        i
    }
}

/// A word that starts at `i` ends within `s`, at white space or at the end,
/// and holds no white space.
pub proof fn lemma_word_end(s: Seq<char>, i: int)
    requires
        0 <= i <= s.len(),
    ensures
        i <= word_end(s, i) <= s.len(),
        word_end(s, i) == s.len() || is_white_space(s[word_end(s, i)]),
        forall|k: int| i <= k < word_end(s, i) ==> !is_white_space(#[trigger] s[k]),
    decreases s.len() - i,
{
    if i < s.len() && !is_white_space(s[i]) {
        lemma_word_end(s, i + 1);
    }
}

/// The white-space separated words of `s[i..]`, in order.
pub open spec fn words_from(s: Seq<char>, i: int) -> Seq<Seq<char>>
    decreases s.len() - i,
{
    if 0 <= i < s.len() {
        if is_white_space(s[i]) {
            words_from(s, i + 1)
        } else {
            let j = word_end(s, i);
            proof {
                lemma_word_end(s, i);
            }
            seq![s.subrange(i, j)] + words_from(s, j)
        }
    } else {
        seq![]
    }
}

/// The words of `s`, as `str::split_whitespace` yields them: the maximal
/// non-empty runs of non-white-space characters, in order.
pub open spec fn split_ws(s: Seq<char>) -> Seq<Seq<char>> {
    words_from(s, 0)
}

/// The pieces of `cs` that `spans` delimit.
pub open spec fn span_texts(cs: Seq<char>, spans: Seq<(usize, usize)>) -> Seq<Seq<char>> {
    Seq::new(spans.len(), |k: int| cs.subrange(spans[k].0 as int, spans[k].1 as int))
}

/// Whether every span lies within `cs`.
pub open spec fn spans_within(cs: Seq<char>, spans: Seq<(usize, usize)>) -> bool {
    forall|k: int| 0 <= k < spans.len() ==> #[trigger] spans[k].0 <= spans[k].1 <= cs.len()
}

/// A word: non-empty, with no white space in it.
pub open spec fn is_word(t: Seq<char>) -> bool {
    t.len() > 0 && forall|i: int| 0 <= i < t.len() ==> !is_white_space(#[trigger] t[i])
}

proof fn lemma_word_end_shift(p: Seq<char>, b: Seq<char>, j: int)
    requires
        0 <= j <= b.len(),
    ensures
        word_end(p + b, p.len() + j) == p.len() + word_end(b, j),
    decreases b.len() - j,
{
    if j < b.len() {
        assert((p + b)[p.len() + j] == b[j]);
        if !is_white_space(b[j]) {
            lemma_word_end_shift(p, b, j + 1);
        }
    }
}

proof fn lemma_words_shift(p: Seq<char>, b: Seq<char>, j: int)
    requires
        0 <= j <= b.len(),
    ensures
        words_from(p + b, p.len() + j) == words_from(b, j),
    decreases b.len() - j,
{
    if j < b.len() {
        assert((p + b)[p.len() + j] == b[j]);
        if is_white_space(b[j]) {
            lemma_words_shift(p, b, j + 1);
        } else {
            lemma_word_end_shift(p, b, j);
            lemma_word_end(b, j);
            let k = word_end(b, j);
            assert((p + b).subrange(p.len() + j, p.len() + k) == b.subrange(j, k));
            lemma_words_shift(p, b, k);
        }
    }
}

proof fn lemma_word_end_stop(a: Seq<char>, c: char, b: Seq<char>, i: int)
    requires
        is_white_space(c),
        0 <= i <= a.len(),
    ensures
        word_end(a + seq![c] + b, i) == word_end(a, i),
    decreases a.len() - i,
{
    let s = a + seq![c] + b;
    if i < a.len() {
        assert(s[i] == a[i]);
        if !is_white_space(a[i]) {
            lemma_word_end_stop(a, c, b, i + 1);
        }
    } else {
        assert(s[i] == c);
    }
}

proof fn lemma_words_split_at(a: Seq<char>, c: char, b: Seq<char>, i: int)
    requires
        is_white_space(c),
        0 <= i <= a.len(),
    ensures
        words_from(a + seq![c] + b, i) == words_from(a, i) + words_from(b, 0),
    decreases a.len() - i,
{
    let s = a + seq![c] + b;
    if i == a.len() {
        assert(s[i] == c);
        assert(s == (a + seq![c]) + b);
        lemma_words_shift(a + seq![c], b, 0);
        assert(words_from(a, i) + words_from(b, 0) == words_from(b, 0));
    } else {
        assert(s[i] == a[i]);
        if is_white_space(a[i]) {
            lemma_words_split_at(a, c, b, i + 1);
        } else {
            lemma_word_end_stop(a, c, b, i);
            lemma_word_end(a, i);
            lemma_word_end(a, i + 1);
            let j = word_end(a, i);
            assert(s.subrange(i, j) == a.subrange(i, j));
            lemma_words_split_at(a, c, b, j);
            assert(words_from(s, i) == seq![a.subrange(i, j)] + words_from(s, j));
            assert(words_from(a, i) == seq![a.subrange(i, j)] + words_from(a, j));
            assert(seq![a.subrange(i, j)] + (words_from(a, j) + words_from(b, 0)) == (seq![
                a.subrange(i, j),
            ] + words_from(a, j)) + words_from(b, 0));
        }
    }
}

proof fn lemma_split_single_word(w: Seq<char>)
    requires
        is_word(w),
    ensures
        split_ws(w) == seq![w],
{
    lemma_word_end(w, 0);
    assert(w.subrange(0, w.len() as int) == w);
    assert(words_from(w, w.len() as int) == Seq::<Seq<char>>::empty());
}

/// Words joined by single spaces split back into the same words.
pub proof fn lemma_split_join(ws: Seq<Seq<char>>)
    requires
        forall|k: int| 0 <= k < ws.len() ==> is_word(#[trigger] ws[k]),
    ensures
        split_ws(join(ws, " "@)) == ws,
    decreases ws.len(),
{
    reveal_strlit(" ");
    if ws.len() == 0 {
        assert(split_ws(Seq::<char>::empty()) == Seq::<Seq<char>>::empty());
    } else if ws.len() == 1 {
        lemma_split_single_word(ws[0]);
    } else {
        let prev = ws.drop_last();
        assert forall|k: int| 0 <= k < prev.len() implies is_word(#[trigger] prev[k]) by {
            assert(prev[k] == ws[k]);
        }
        lemma_split_join(prev);
        assert(" "@ == seq![' ']);
        assert(is_white_space(' '));
        lemma_words_split_at(join(prev, " "@), ' ', ws.last(), 0);
        assert(is_word(ws[ws.len() - 1]));
        lemma_split_single_word(ws.last());
        assert(prev + seq![ws.last()] == ws);
    }
}

/// A word appended after a space is one more word at the end.
pub proof fn lemma_split_append_word(a: Seq<char>, w: Seq<char>)
    requires
        is_word(w),
    ensures
        split_ws(a + " "@ + w) == split_ws(a).push(w),
{
    reveal_strlit(" ");
    assert(" "@ == seq![' ']);
    assert(is_white_space(' '));
    lemma_words_split_at(a, ' ', w, 0);
    lemma_split_single_word(w);
    assert(split_ws(a) + seq![w] == split_ws(a).push(w));
}

proof fn lemma_words_from_are_words(s: Seq<char>, i: int)
    requires
        0 <= i <= s.len(),
    ensures
        forall|k: int| 0 <= k < words_from(s, i).len() ==> is_word(#[trigger] words_from(s, i)[k]),
    decreases s.len() - i,
{
    if i < s.len() {
        if is_white_space(s[i]) {
            lemma_words_from_are_words(s, i + 1);
            assert(words_from(s, i) == words_from(s, i + 1));
        } else {
            lemma_word_end(s, i);
            lemma_word_end(s, i + 1);
            let j = word_end(s, i);
            lemma_words_from_are_words(s, j);
            let w = s.subrange(i, j);
            assert(words_from(s, i) == seq![w] + words_from(s, j));
            assert(is_word(w)) by {
                assert forall|m: int| 0 <= m < w.len() implies !is_white_space(#[trigger] w[m]) by {
                    assert(w[m] == s[i + m]);
                }
            }
            assert forall|k: int| 0 <= k < words_from(s, i).len() implies is_word(
                #[trigger] words_from(s, i)[k],
            ) by {
                if k > 0 {
                    assert(words_from(s, i)[k] == words_from(s, j)[k - 1]);
                } else {
                    assert(words_from(s, i)[k] == w);
                }
            }
        }
    } else {
        assert(words_from(s, i).len() == 0);
    }
}

/// Every piece that `split_ws` yields is a word.
pub proof fn lemma_split_gives_words(s: Seq<char>)
    ensures
        forall|k: int| 0 <= k < split_ws(s).len() ==> is_word(#[trigger] split_ws(s)[k]),
{
    lemma_words_from_are_words(s, 0);
}

/// The spans of the white-space separated words of `cs`.
pub fn split_whitespace_spans(cs: &Vec<char>) -> (r: Vec<(usize, usize)>)
    ensures
        spans_within(cs@, r@),
        span_texts(cs@, r@) == split_ws(cs@),
{
    let n = cs.len();
    let mut spans: Vec<(usize, usize)> = Vec::new();
    let mut i: usize = 0;
    while i < n
        invariant
            i <= n == cs@.len(),
            spans_within(cs@, spans@),
            span_texts(cs@, spans@) + words_from(cs@, i as int) == split_ws(cs@),
        decreases n - i,
    {
        if white_space(cs[i]) {
            i = i + 1;
        } else {
            let mut j: usize = i + 1;
            while j < n && !white_space(cs[j])
                invariant
                    i < j <= n == cs@.len(),
                    word_end(cs@, i as int) == word_end(cs@, j as int),
                decreases n - j,
            {
                j = j + 1;
            }
            proof {
                lemma_word_end(cs@, i as int);
            }
            let ghost old_spans = spans@;
            spans.push((i, j));
            assert(span_texts(cs@, spans@) == span_texts(cs@, old_spans).push(
                cs@.subrange(i as int, j as int),
            ));
            assert(words_from(cs@, i as int) == seq![cs@.subrange(i as int, j as int)]
                + words_from(cs@, j as int));
            assert(span_texts(cs@, old_spans) + words_from(cs@, i as int) == span_texts(
                cs@,
                spans@,
            ) + words_from(cs@, j as int));
            i = j;
        }
    }
    assert(words_from(cs@, n as int) == Seq::<Seq<char>>::empty());
    assert(span_texts(cs@, spans@) + Seq::<Seq<char>>::empty() == span_texts(cs@, spans@));
    spans
}


/// Appends `cs[lo..hi]` to `r`.
pub fn append_range(r: &mut String, cs: &Vec<char>, lo: usize, hi: usize)
    requires
        lo <= hi <= cs@.len(),
    ensures
        final(r)@ == old(r)@ + cs@.subrange(lo as int, hi as int),
{
    let mut i = lo;
    while i < hi
        invariant
            lo <= i <= hi <= cs@.len(),
            r@ == old(r)@ + cs@.subrange(lo as int, i as int),
        decreases hi - i,
    {
        push_char(r, cs[i]);
        assert(cs@.subrange(lo as int, i + 1) == cs@.subrange(lo as int, i as int).push(
            cs@[i as int],
        ));
        i = i + 1;
    }
}

/// Whether `s` begins with `p`.
pub open spec fn starts_with(s: Seq<char>, p: Seq<char>) -> bool {
    p.len() <= s.len() && s.subrange(0, p.len() as int) == p
}

/// What `str::strip_prefix` gives: the rest of `s` after `p`, if `s` begins with `p`.
pub open spec fn strip_prefix(s: Seq<char>, p: Seq<char>) -> Option<Seq<char>> {
    if starts_with(s, p) {
        Some(s.subrange(p.len() as int, s.len() as int))
    } else {
        None
    }
}

/// Whether `cs[lo..hi]` begins with `p`.
pub fn range_starts_with(cs: &Vec<char>, lo: usize, hi: usize, p: &Vec<char>) -> (r: bool)
    requires
        lo <= hi <= cs@.len(),
    ensures
        r == starts_with(cs@.subrange(lo as int, hi as int), p@),
{
    let ghost s = cs@.subrange(lo as int, hi as int);
    if p.len() > hi - lo {
        return false;
    }
    let mut k: usize = 0;
    while k < p.len()
        invariant
            lo <= hi <= cs@.len(),
            p@.len() <= hi - lo,
            k <= p@.len(),
            s == cs@.subrange(lo as int, hi as int),
            forall|m: int| 0 <= m < k ==> s[m] == p@[m],
        decreases p@.len() - k,
    {
        if cs[lo + k] != p[k] {
            assert(s.subrange(0, p@.len() as int)[k as int] != p@[k as int]);
            return false;
        }
        k = k + 1;
    }
    assert(s.subrange(0, p@.len() as int) == p@);
    true
}

/// Whether `cs[lo..hi]` is exactly `p`.
pub fn range_equals(cs: &Vec<char>, lo: usize, hi: usize, p: &Vec<char>) -> (r: bool)
    requires
        lo <= hi <= cs@.len(),
    ensures
        r == (cs@.subrange(lo as int, hi as int) == p@),
{
    if hi - lo != p.len() {
        return false;
    }
    let b = range_starts_with(cs, lo, hi, p);
    assert(cs@.subrange(lo as int, hi as int).subrange(0, p@.len() as int) == cs@.subrange(
        lo as int,
        hi as int,
    ));
    b
}

/// ASCII lower-casing of one character; other characters are unchanged.
pub open spec fn ascii_lower(c: char) -> char {
    let v = c as u32;
    if 0x41 <= v <= 0x5a {
        ((v + 32) as u8) as char
    } else {
        c
    }
}

fn to_ascii_lower(c: char) -> (r: char)
    ensures
        r == ascii_lower(c),
{
    let v = c as u32;
    if 0x41 <= v && v <= 0x5a {
        ((v + 32) as u8) as char
    } else {
        c
    }
}

/// Equality up to ASCII case, as `str::eq_ignore_ascii_case` decides it.
pub open spec fn eq_ignore_ascii_case(a: Seq<char>, b: Seq<char>) -> bool {
    &&& a.len() == b.len()
    &&& forall|i: int| 0 <= i < a.len() ==> ascii_lower(#[trigger] a[i]) == ascii_lower(b[i])
}

/// Whether `a` and `b` are equal up to ASCII case.
pub fn chars_eq_ignore_ascii_case(a: &Vec<char>, b: &Vec<char>) -> (r: bool)
    ensures
        r == eq_ignore_ascii_case(a@, b@),
{
    if a.len() != b.len() {
        return false;
    }
    let mut k: usize = 0;
    while k < a.len()
        invariant
            a@.len() == b@.len(),
            k <= a@.len(),
            forall|m: int| 0 <= m < k ==> ascii_lower(#[trigger] a@[m]) == ascii_lower(b@[m]),
        decreases a@.len() - k,
    {
        if to_ascii_lower(a[k]) != to_ascii_lower(b[k]) {
            return false;
        }
        k = k + 1;
    }
    true
}

/// The parts joined with `sep` between neighbours, as `[T]::join` gives it.
pub open spec fn join(parts: Seq<Seq<char>>, sep: Seq<char>) -> Seq<char>
    decreases parts.len(),
{
    if parts.len() == 0 {
        seq![]
    } else if parts.len() == 1 {
        parts[0]
    } else {
        join(parts.drop_last(), sep) + sep + parts.last()
    }
}

/// The pieces of `cs` that `spans` delimit, joined with `sep`.
pub fn join_spans(cs: &Vec<char>, spans: &Vec<(usize, usize)>, sep: &str) -> (r: String)
    requires
        spans_within(cs@, spans@),
    ensures
        r@ == join(span_texts(cs@, spans@), sep@),
{
    let ghost parts = span_texts(cs@, spans@);
    let mut r = String::new();
    let mut k: usize = 0;
    while k < spans.len()
        invariant
            spans_within(cs@, spans@),
            parts == span_texts(cs@, spans@),
            k <= spans@.len(),
            r@ == join(parts.take(k as int), sep@),
        decreases spans@.len() - k,
    {
        let (lo, hi) = spans[k];
        assert(spans@[k as int].0 <= spans@[k as int].1 <= cs@.len());
        assert(parts.take(k + 1).drop_last() == parts.take(k as int));
        if k > 0 {
            r.append(sep);
        }
        append_range(&mut r, cs, lo, hi);
        k = k + 1;
    }
    assert(parts.take(spans@.len() as int) == parts);
    r
}


/// The index of the first `'\n'` at or after `i`, or the length of `s`.
pub open spec fn line_end(s: Seq<char>, i: int) -> int
    decreases s.len() - i,
{
    if 0 <= i < s.len() && s[i] != '\n' {
        line_end(s, i + 1)
    } else {
        i
    }
}

/// A line that starts at `i` ends within `s`, at a `'\n'` or at the end.
pub proof fn lemma_line_end(s: Seq<char>, i: int)
    requires
        0 <= i <= s.len(),
    ensures
        i <= line_end(s, i) <= s.len(),
        line_end(s, i) == s.len() || s[line_end(s, i)] == '\n',
    decreases s.len() - i,
{
    if i < s.len() && s[i] != '\n' {
        lemma_line_end(s, i + 1);
    }
}

/// A line without the `'\r'` of its `"\r\n"` terminator.
pub open spec fn strip_cr(l: Seq<char>) -> Seq<char> {
    if l.len() > 0 && l.last() == '\r' {
        l.drop_last()
    } else {
        l
    }
}

/// The lines of `s[i..]`.
pub open spec fn lines_from(s: Seq<char>, i: int) -> Seq<Seq<char>>
    decreases s.len() - i,
{
    if 0 <= i < s.len() {
        let k = line_end(s, i);
        proof {
            lemma_line_end(s, i);
        }
        if k < s.len() {
            seq![strip_cr(s.subrange(i, k))] + lines_from(s, k + 1)
        } else {
            seq![s.subrange(i, s.len() as int)]
        }
    } else {
        seq![]
    }
}

/// The lines of `s`, as `str::lines` yields them: split at `'\n'`, a
/// `'\r'` right before a `'\n'` dropped, no empty line after a final `'\n'`.
pub open spec fn lines(s: Seq<char>) -> Seq<Seq<char>> {
    lines_from(s, 0)
}

/// At most the first `n` lines of `s`.
pub open spec fn first_lines(s: Seq<char>, n: nat) -> Seq<Seq<char>> {
    let ls = lines(s);
    if ls.len() < n {
        ls
    } else {
        ls.take(n as int)
    }
}

/// The spans of at most the first `max` lines of `cs`.
pub fn first_line_spans(cs: &Vec<char>, max: usize) -> (r: Vec<(usize, usize)>)
    ensures
        spans_within(cs@, r@),
        span_texts(cs@, r@) == first_lines(cs@, max as nat),
{
    let n = cs.len();
    let mut spans: Vec<(usize, usize)> = Vec::new();
    let mut i: usize = 0;
    while i < n && spans.len() < max
        invariant
            i <= n == cs@.len(),
            spans@.len() <= max,
            spans_within(cs@, spans@),
            span_texts(cs@, spans@) + lines_from(cs@, i as int) == lines(cs@),
        decreases n - i,
    {
        let mut k: usize = i;
        while k < n && cs[k] != '\n'
            invariant
                i <= k <= n == cs@.len(),
                line_end(cs@, i as int) == line_end(cs@, k as int),
            decreases n - k,
        {
            k = k + 1;
        }
        proof {
            lemma_line_end(cs@, i as int);
        }
        let ghost old_spans = spans@;
        let ghost line = lines_from(cs@, i as int)[0];
        if k < n {
            let hi = if k > i && cs[k - 1] == '\r' {
                k - 1
            } else {
                k
            };
            assert(cs@.subrange(i as int, hi as int) == strip_cr(cs@.subrange(i as int, k as int)));
            spans.push((i, hi));
            assert(lines_from(cs@, i as int) == seq![cs@.subrange(i as int, hi as int)]
                + lines_from(cs@, k + 1));
            assert(span_texts(cs@, spans@) == span_texts(cs@, old_spans).push(
                cs@.subrange(i as int, hi as int),
            ));
            assert(span_texts(cs@, old_spans) + lines_from(cs@, i as int) == span_texts(
                cs@,
                spans@,
            ) + lines_from(cs@, k + 1));
            i = k + 1;
        } else {
            spans.push((i, n));
            assert(lines_from(cs@, i as int) == seq![cs@.subrange(i as int, n as int)]);
            assert(lines_from(cs@, n as int) == Seq::<Seq<char>>::empty());
            assert(span_texts(cs@, spans@) == span_texts(cs@, old_spans).push(
                cs@.subrange(i as int, n as int),
            ));
            assert(span_texts(cs@, old_spans) + lines_from(cs@, i as int) == span_texts(
                cs@,
                spans@,
            ) + lines_from(cs@, n as int));
            i = n;
        }
    }
    let ghost done = span_texts(cs@, spans@);
    let ghost rest = lines_from(cs@, i as int);
    assert(done.len() == spans@.len());
    if spans.len() < max {
        assert(rest == Seq::<Seq<char>>::empty());
        assert(done + rest == done);
    } else {
        assert((done + rest).take(max as int) == done);
    }
    spans
}

proof fn lemma_line_end_shift(p: Seq<char>, b: Seq<char>, j: int)
    requires
        0 <= j <= b.len(),
    ensures
        line_end(p + b, p.len() + j) == p.len() + line_end(b, j),
    decreases b.len() - j,
{
    if j < b.len() {
        assert((p + b)[p.len() + j] == b[j]);
        if b[j] != '\n' {
            lemma_line_end_shift(p, b, j + 1);
        }
    }
}

proof fn lemma_lines_shift(p: Seq<char>, b: Seq<char>, j: int)
    requires
        0 <= j <= b.len(),
    ensures
        lines_from(p + b, p.len() + j) == lines_from(b, j),
    decreases b.len() - j,
{
    if j < b.len() {
        lemma_line_end_shift(p, b, j);
        lemma_line_end(b, j);
        let k = line_end(b, j);
        if k < b.len() {
            assert((p + b).subrange(p.len() + j, p.len() + k) == b.subrange(j, k));
            lemma_lines_shift(p, b, k + 1);
        } else {
            assert((p + b).subrange(p.len() + j, (p + b).len() as int) == b.subrange(
                j,
                b.len() as int,
            ));
        }
    }
}

proof fn lemma_line_end_within(a: Seq<char>, b: Seq<char>, i: int)
    requires
        0 <= i <= a.len(),
        forall|k: int| 0 <= k < a.len() ==> #[trigger] a[k] != '\n',
    ensures
        line_end(a + seq!['\n'] + b, i) == a.len(),
    decreases a.len() - i,
{
    let s = a + seq!['\n'] + b;
    if i < a.len() {
        assert(s[i] == a[i]);
        lemma_line_end_within(a, b, i + 1);
    } else {
        assert(s[i] == '\n');
    }
}

/// A line without `'\n'` followed by `'\n'` is the first line, with a `'\r'`
/// right before the `'\n'` dropped, and the lines after it are those of the rest.
pub proof fn lemma_lines_first(a: Seq<char>, b: Seq<char>)
    requires
        forall|k: int| 0 <= k < a.len() ==> #[trigger] a[k] != '\n',
    ensures
        lines(a + "\n"@ + b) == seq![strip_cr(a)] + lines(b),
{
    reveal_strlit("\n");
    assert("\n"@ == seq!['\n']);
    let s = a + seq!['\n'] + b;
    lemma_line_end_within(a, b, 0);
    assert(s.subrange(0, a.len() as int) == a);
    assert(s == (a + seq!['\n']) + b);
    lemma_lines_shift(a + seq!['\n'], b, 0);
}

/// A non-empty text without `'\n'` is a single line, kept whole.
pub proof fn lemma_lines_single(a: Seq<char>)
    requires
        a.len() > 0,
        forall|k: int| 0 <= k < a.len() ==> #[trigger] a[k] != '\n',
    ensures
        lines(a) == seq![a],
{
    lemma_line_end(a, 0);
    if line_end(a, 0) < a.len() {
        assert(a[line_end(a, 0)] != '\n');
    }
    assert(a.subrange(0, a.len() as int) == a);
}

/// A line ending in `'\r'` loses exactly that character; other lines stay.
pub proof fn lemma_strip_cr(a: Seq<char>)
    ensures
        strip_cr(a.push('\r')) == a,
        a.len() == 0 || a.last() != '\r' ==> strip_cr(a) == a,
{
    assert(a.push('\r').drop_last() == a);
}

/// A piece occurs in any text built around it, and only in texts at least as long.
pub proof fn lemma_contains_shape(a: Seq<char>, p: Seq<char>, b: Seq<char>, s: Seq<char>)
    ensures
        contains(a + p + b, p),
        contains(s, p) ==> p.len() <= s.len(),
{
    let t = a + p + b;
    assert(t.subrange(a.len() as int, a.len() as int + p.len()) == p);
}

/// Whether `p` occurs in `s` as a contiguous piece.
pub open spec fn contains(s: Seq<char>, p: Seq<char>) -> bool {
    exists|i: int| 0 <= i && i + p.len() <= s.len() && #[trigger] s.subrange(i, i + p.len()) == p
}

/// Whether `p` occurs in `h`.
pub fn chars_contain(h: &Vec<char>, p: &Vec<char>) -> (r: bool)
    ensures
        r == contains(h@, p@),
{
    if p.len() > h.len() {
        return false;
    }
    if p.len() == 0 {
        assert(h@.subrange(0, 0int + p@.len()) == p@);
        return true;
    }
    let last = h.len() - p.len();
    let mut i: usize = 0;
    while i <= last
        invariant
            last == h@.len() - p@.len(),
            0 < p@.len() <= h@.len() <= usize::MAX,
            h.len() == h@.len(),
            p.len() == p@.len(),
            i <= last + 1,
            forall|m: int| 0 <= m < i ==> #[trigger] h@.subrange(m, m + p@.len()) != p@,
        decreases last + 1 - i,
    {
        if range_equals(h, i, i + p.len(), p) {
            return true;
        }
        i = i + 1;
    }
    assert forall|m: int| 0 <= m && m + p@.len() <= h@.len() implies #[trigger] h@.subrange(
        m,
        m + p@.len(),
    ) != p@ by {
        assert(m <= last);
    }
    false
}


/// `s` without its trailing `'/'` characters, as `str::trim_end_matches('/')` gives it.
pub open spec fn trim_end_slashes(s: Seq<char>) -> Seq<char>
    decreases s.len(),
{
    if s.len() > 0 && s.last() == '/' {
        trim_end_slashes(s.drop_last())
    } else {
        s
    }
}

/// The length of `cs` without its trailing `'/'` characters.
pub fn trim_end_slashes_len(cs: &Vec<char>) -> (r: usize)
    ensures
        r <= cs@.len(),
        trim_end_slashes(cs@) == cs@.subrange(0, r as int),
{
    let mut j = cs.len();
    assert(cs@.subrange(0, j as int) == cs@);
    while j > 0 && cs[j - 1] == '/'
        invariant
            j <= cs@.len(),
            trim_end_slashes(cs@) == trim_end_slashes(cs@.subrange(0, j as int)),
        decreases j,
    {
        assert(cs@.subrange(0, j as int).drop_last() == cs@.subrange(0, j - 1));
        j = j - 1;
    }
    j
}

/// `s[i..]` with every occurrence of `pat` replaced by `rep`, occurrences
/// taken left to right without overlap. An empty `pat` is never replaced.
pub open spec fn replace_from(s: Seq<char>, pat: Seq<char>, rep: Seq<char>, i: int) -> Seq<char>
    decreases s.len() - i,
{
    if 0 <= i < s.len() {
        if pat.len() > 0 && i + pat.len() <= s.len() && s.subrange(i, i + pat.len()) == pat {
            rep + replace_from(s, pat, rep, i + pat.len())
        } else {
            seq![s[i]] + replace_from(s, pat, rep, i + 1)
        }
    } else {
        seq![]
    }
}

/// `s` with every occurrence of a non-empty `pat` replaced by `rep`, as
/// `str::replace` gives it.
pub open spec fn replace_all(s: Seq<char>, pat: Seq<char>, rep: Seq<char>) -> Seq<char> {
    replace_from(s, pat, rep, 0)
}

/// Where `pat` does not occur from `i` on, replacing leaves `s[i..]` unchanged.
pub proof fn lemma_replace_absent(s: Seq<char>, pat: Seq<char>, rep: Seq<char>, i: int)
    requires
        0 <= i <= s.len(),
        pat.len() > 0,
        forall|k: int| i <= k && k + pat.len() <= s.len() ==> #[trigger] s.subrange(k, k + pat.len()) != pat,
    ensures
        replace_from(s, pat, rep, i) == s.subrange(i, s.len() as int),
    decreases s.len() - i,
{
    if i < s.len() {
        lemma_replace_absent(s, pat, rep, i + 1);
        assert(seq![s[i]] + s.subrange(i + 1, s.len() as int) == s.subrange(i, s.len() as int));
    } else {
        assert(s.subrange(i, s.len() as int) == Seq::<char>::empty());
    }
}

/// `cs[..len]` with every occurrence of `pat` replaced by `rep`.
pub fn replace_prefix_range(cs: &Vec<char>, len: usize, pat: &Vec<char>, rep: &str) -> (r: String)
    requires
        len <= cs@.len(),
        pat@.len() > 0,
    ensures
        r@ == replace_all(cs@.subrange(0, len as int), pat@, rep@),
{
    let ghost s = cs@.subrange(0, len as int);
    let mut out = String::new();
    let mut i: usize = 0;
    while i < len
        invariant
            len <= cs@.len(),
            s == cs@.subrange(0, len as int),
            pat@.len() > 0,
            i <= len,
            out@ + replace_from(s, pat@, rep@, i as int) == replace_all(s, pat@, rep@),
        decreases len - i,
    {
        let ghost before = out@;
        if pat.len() <= len - i && range_equals(cs, i, i + pat.len(), pat) {
            assert(s.subrange(i as int, i + pat@.len()) == cs@.subrange(i as int, i + pat@.len()));
            out.append(rep);
            assert(before + replace_from(s, pat@, rep@, i as int) == out@ + replace_from(
                s,
                pat@,
                rep@,
                i + pat@.len(),
            ));
            i = i + pat.len();
        } else {
            assert(pat@.len() <= len - i ==> s.subrange(i as int, i + pat@.len()) == cs@.subrange(
                i as int,
                i + pat@.len(),
            ));
            push_char(&mut out, cs[i]);
            assert(before + replace_from(s, pat@, rep@, i as int) == out@ + replace_from(
                s,
                pat@,
                rep@,
                i + 1,
            ));
            i = i + 1;
        }
    }
    assert(out@ + Seq::<char>::empty() == out@);
    out
}

} // verus!
