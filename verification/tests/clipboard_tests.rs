use memora::clipboard::{classify, hash_content, CapturedContent};

#[test]
fn classify_url() {
    let (label, c) = classify("  https://example.com/a  ");
    assert_eq!(label, "url");
    match c {
        CapturedContent::Url(u) => assert_eq!(u, "https://example.com/a"),
        other => panic!("unexpected {:?}", other),
    }
}

#[test]
fn classify_code() {
    let (label, c) = classify("\nfn main() {\n}\n");
    assert_eq!(label, "code");
    match c {
        CapturedContent::Code(u) => assert_eq!(u, "fn main() {\n}"),
        other => panic!("unexpected {:?}", other),
    }
}

#[test]
fn classify_text() {
    let (label, c) = classify("  just some words ");
    assert_eq!(label, "text");
    match c {
        CapturedContent::Text(u) => assert_eq!(u, "just some words"),
        other => panic!("unexpected {:?}", other),
    }
}

#[test]
fn classify_empty_is_text() {
    let (label, c) = classify(" \t\n");
    assert_eq!(label, "text");
    match c {
        CapturedContent::Text(u) => assert_eq!(u, ""),
        other => panic!("unexpected {:?}", other),
    }
}

#[test]
fn classify_url_wins_over_code() {
    let (label, _) = classify("https://example.com/fn%20x");
    assert_eq!(label, "url");
}

#[test]
fn classify_idempotent_on_values() {
    for t in ["  https://a.b  ", " let x = 1; ", "\u{2003}words\u{2003}"] {
        let (label, c) = classify(t);
        let kept = match c {
            CapturedContent::Url(s) | CapturedContent::Code(s) | CapturedContent::Text(s) => s,
            CapturedContent::Image { .. } => panic!("image"),
        };
        let (label2, c2) = classify(&kept);
        assert_eq!(label, label2);
        match c2 {
            CapturedContent::Url(s) | CapturedContent::Code(s) | CapturedContent::Text(s) => {
                assert_eq!(s, kept)
            }
            CapturedContent::Image { .. } => panic!("image"),
        }
    }
}

#[test]
fn hash_content_known_values() {
    assert_eq!(
        hash_content("text", Some("hello"), None),
        "6ac4e8f0f5c06c895def17c0aab96823e11d8788cd6eb682d1a17025d78a27f1"
    );
    assert_eq!(
        hash_content("image", None, Some("/tmp/a.png")),
        "d203978e71b7e1a583beeba6269e4a00bfb8d46f0467321dacbf5b83c12a6470"
    );
    assert_eq!(
        hash_content("text", None, None),
        "982d9e3eb996f559e633f4d194def3761d909f5a3b647d1a851fead67c32c9d1"
    );
}

#[test]
fn hash_content_hashes_utf8_bytes() {
    assert_eq!(
        hash_content("url", Some("https://é.com"), None),
        "079231dd1a33a69d37b4dbd917d3f843052785ca199f7544548400ddfc98e220"
    );
}

#[test]
fn hash_content_is_64_lowercase_hex() {
    let h = hash_content("code", Some("let x = 1;"), Some("p"));
    assert_eq!(h.len(), 64);
    assert!(h.chars().all(|c| c.is_ascii_digit() || ('a'..='f').contains(&c)));
}

#[test]
fn hash_content_concatenates_fields() {
    assert_eq!(hash_content("te", Some("xthello"), None), hash_content("text", Some("hello"), None));
    assert_eq!(hash_content("x", Some("a"), None), hash_content("x", None, Some("a")));
    assert_ne!(hash_content("text", Some("hello"), None), hash_content("text", Some("hellO"), None));
}

#[test]
fn captured_image_variant_clones() {
    let c = CapturedContent::Image { path: "/p".to_string(), size: 7, thumbnail_path: None };
    match c.clone() {
        CapturedContent::Image { path, size, thumbnail_path } => {
            assert_eq!(path, "/p");
            assert_eq!(size, 7);
            assert_eq!(thumbnail_path, None);
        }
        _ => panic!("variant"),
    }
}
