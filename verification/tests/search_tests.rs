use memora::search::{is_url, looks_like_code, normalize_device, parse_query, ParsedQuery};

#[test]
fn parse_query_empty_has_nothing() {
    let q = parse_query("");
    assert_eq!(q.text, None);
    assert_eq!(q.device, None);
    assert_eq!(q.content_type, None);
    assert_eq!(q.tag, None);
    assert!(!q.is_pinned && !q.is_favorite && !q.is_snippet && !q.date_today);
}

#[test]
fn parse_query_free_text_joined_with_single_spaces() {
    let q = parse_query("  hello \t  world\n again ");
    assert_eq!(q.text.as_deref(), Some("hello world again"));
}

#[test]
fn parse_query_reads_all_filters() {
    let q = parse_query("device:Mac type:url tag:work is:pinned is:favorite is:snippet today report");
    assert_eq!(q.device.as_deref(), Some("macos"));
    assert_eq!(q.content_type.as_deref(), Some("url"));
    assert_eq!(q.tag.as_deref(), Some("work"));
    assert!(q.is_pinned);
    assert!(q.is_favorite);
    assert!(q.is_snippet);
    assert!(q.date_today);
    assert_eq!(q.text.as_deref(), Some("report"));
}

#[test]
fn parse_query_favourited_spelling() {
    let q = parse_query("is:favourited");
    assert!(q.is_favorite);
    assert_eq!(q.text, None);
}

#[test]
fn parse_query_later_device_wins() {
    let q = parse_query("device:win device:linux-box");
    assert_eq!(q.device.as_deref(), Some("linux-box"));
    let q = parse_query("device:linux-box device:WINDOWS");
    assert_eq!(q.device.as_deref(), Some("windows"));
}

#[test]
fn parse_query_empty_filter_values() {
    let q = parse_query("type: tag:");
    assert_eq!(q.content_type.as_deref(), Some(""));
    assert_eq!(q.tag.as_deref(), Some(""));
    assert_eq!(q.text, None);
}

#[test]
fn parse_query_filters_are_case_sensitive() {
    let q = parse_query("IS:PINNED Today Device:mac");
    assert!(!q.is_pinned);
    assert!(!q.date_today);
    assert_eq!(q.device, None);
    assert_eq!(q.text.as_deref(), Some("IS:PINNED Today Device:mac"));
}

#[test]
fn parse_query_unicode_whitespace_separates_words() {
    let q = parse_query("a\u{3000}b\u{a0}c\u{2028}d");
    assert_eq!(q.text.as_deref(), Some("a b c d"));
}

#[test]
fn parse_query_spacing_law_on_values() {
    let a = parse_query("tag:x   foo  bar");
    let b = parse_query("\ttag:x foo\nbar ");
    assert_eq!(a.tag, b.tag);
    assert_eq!(a.text, b.text);
}

#[test]
fn parsed_query_default_is_empty() {
    let q = ParsedQuery::default();
    assert_eq!(q.text, None);
    assert!(!q.is_pinned);
}

#[test]
fn normalize_device_names() {
    assert_eq!(normalize_device("mac"), "macos");
    assert_eq!(normalize_device("MacOS"), "macos");
    assert_eq!(normalize_device("WIN"), "windows");
    assert_eq!(normalize_device("Windows"), "windows");
    assert_eq!(normalize_device("linux"), "linux");
    assert_eq!(normalize_device("macbook"), "macbook");
    assert_eq!(normalize_device(""), "");
}

#[test]
fn normalize_device_idempotent_on_values() {
    for v in ["mac", "MACOS", "win", "Windows", "ubuntu", "Mäc"] {
        let once = normalize_device(v);
        assert_eq!(normalize_device(&once), once);
    }
}

#[test]
fn is_url_accepts_http_and_https() {
    assert!(is_url("https://example.com"));
    assert!(is_url("http://example.com/path?q=1"));
    assert!(is_url("  https://example.com/x  \n"));
}

#[test]
fn is_url_rejects_other_text() {
    assert!(!is_url("ftp://example.com"));
    assert!(!is_url("https://"));
    assert!(!is_url("https://exa mple.com"));
    assert!(!is_url("see https://example.com"));
    assert!(!is_url("HTTPS://example.com"));
    assert!(!is_url(""));
}

#[test]
fn looks_like_code_finds_indicators() {
    assert!(looks_like_code("fn main() {}"));
    assert!(looks_like_code("x\ny\nconst a = 1;"));
    assert!(looks_like_code("SELECT * FROM t"));
    assert!(looks_like_code("#include <stdio.h>"));
    assert!(looks_like_code("<?php echo 1;"));
}

#[test]
fn looks_like_code_only_reads_three_lines() {
    assert!(!looks_like_code("a\nb\nc\nlet x = 1;"));
    assert!(looks_like_code("a\r\nb\r\nlet x = 1;\r\nd"));
}

#[test]
fn looks_like_code_rejects_prose() {
    assert!(!looks_like_code("hello world"));
    assert!(!looks_like_code(""));
    assert!(!looks_like_code("select * from t"));
    assert!(!looks_like_code("fn"));
}

#[test]
fn looks_like_code_indicator_not_across_lines() {
    assert!(!looks_like_code("fn\n x"));
    assert!(!looks_like_code("le\nt x"));
}

#[test]
fn free_text_reparses_to_itself() {
    for input in ["device:mac  hello\tworld is:pinned  foo", "a b c", "today tag:x"] {
        let q = parse_query(input);
        if let Some(t) = q.text.clone() {
            let again = parse_query(&t);
            assert_eq!(again.text.as_deref(), Some(t.as_str()));
            assert_eq!(again.device, None);
            assert_eq!(again.content_type, None);
            assert_eq!(again.tag, None);
            assert!(!again.is_pinned && !again.is_favorite && !again.is_snippet && !again.date_today);
        }
    }
}

#[test]
fn is_url_unicode_white_space_inside_rejected() {
    assert!(!is_url("https://a\u{3000}b"));
    assert!(is_url("https://a\u{200b}b"));
    assert!(is_url("http://é"));
}
