use memora::text::{chars_of, trimmed};

#[test]
fn trimmed_removes_unicode_white_space() {
    assert_eq!(trimmed("\u{3000}\u{a0} a b \u{85}\u{2029}"), "a b");
    assert_eq!(trimmed("   "), "");
    assert_eq!(trimmed("x"), "x");
    assert_eq!(trimmed("\u{200b}x\u{200b}"), "\u{200b}x\u{200b}");
}

#[test]
fn trimmed_matches_std_on_samples() {
    for s in ["", " a ", "\t\n\r\x0b\x0c z \u{1680}", "é ü", "\u{feff}q"] {
        assert_eq!(trimmed(s), s.trim());
    }
}

#[test]
fn chars_of_keeps_order() {
    assert_eq!(chars_of("aé😀"), vec!['a', 'é', '😀']);
}

use memora::text::{
    chars_contain, first_line_spans, join_spans, replace_prefix_range, split_whitespace_spans,
    trim_end_slashes_len, white_space,
};

fn texts(cs: &[char], spans: &[(usize, usize)]) -> Vec<String> {
    spans.iter().map(|&(a, b)| cs[a..b].iter().collect()).collect()
}

#[test]
fn split_whitespace_spans_matches_std() {
    for s in ["", "  ", "a", " a  b\tc\n", "x\u{3000}y\u{a0}z", "é  ü"] {
        let cs = chars_of(s);
        let got = texts(&cs, &split_whitespace_spans(&cs));
        let want: Vec<String> = s.split_whitespace().map(|w| w.to_string()).collect();
        assert_eq!(got, want);
    }
}

#[test]
fn first_line_spans_matches_std_lines() {
    for s in ["", "a", "a\n", "a\nb", "a\r\nb\r\n", "a\rb", "x\r", "\n\n", "1\n2\n3\n4\n5"] {
        let cs = chars_of(s);
        let got = texts(&cs, &first_line_spans(&cs, 3));
        let want: Vec<String> = s.lines().take(3).map(|l| l.to_string()).collect();
        assert_eq!(got, want, "input {:?}", s);
    }
}

#[test]
fn join_spans_joins_with_separator() {
    let cs = chars_of("ab cd ef");
    assert_eq!(join_spans(&cs, &vec![(0, 2), (6, 8)], "--"), "ab--ef");
    assert_eq!(join_spans(&cs, &vec![], "--"), "");
    assert_eq!(join_spans(&cs, &vec![(3, 5)], "--"), "cd");
}

#[test]
fn chars_contain_finds_pieces() {
    assert!(chars_contain(&chars_of("hello"), &chars_of("ll")));
    assert!(chars_contain(&chars_of("hello"), &chars_of("")));
    assert!(chars_contain(&chars_of("hello"), &chars_of("hello")));
    assert!(!chars_contain(&chars_of("hello"), &chars_of("hello!")));
    assert!(!chars_contain(&chars_of("hello"), &chars_of("lo!")));
}

#[test]
fn replace_and_slash_trimming() {
    let cs = chars_of("https://a/https://b//");
    let n = trim_end_slashes_len(&cs);
    assert_eq!(n, 19);
    assert_eq!(replace_prefix_range(&cs, n, &chars_of("https://"), "wss://"), "wss://a/wss://b");
    assert_eq!(replace_prefix_range(&chars_of("aaa"), 3, &chars_of("aa"), "b"), "ba");
}

#[test]
fn white_space_matches_std() {
    for c in ['\t', '\n', ' ', '\u{85}', '\u{a0}', '\u{1680}', '\u{2000}', '\u{200a}', '\u{200b}',
        '\u{2028}', '\u{202f}', '\u{205f}', '\u{3000}', '\u{feff}', 'a', '\u{180e}'] {
        assert_eq!(white_space(c), c.is_whitespace(), "{:?}", c);
    }
}
