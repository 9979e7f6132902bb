use elegant_clipboard::dedup::{
    compute_semantic_hash, is_url, normalize_semantic_text, semantic_hash_from_text,
};

#[test]
fn normalize_text_removes_invisible_chars_and_trailing_whitespace() {
    let input = "A\u{200B}\u{00A0}B\t  \r\nline 2\t\n\n";
    let normalized = normalize_semantic_text(input);
    assert_eq!(normalized, "A B\nline 2");
}

#[test]
fn compute_semantic_hash_accepts_uppercase_content_type() {
    let text_hash = compute_semantic_hash("TEXT", Some("hello"), "fallback");
    let html_hash = compute_semantic_hash("HTML", Some("hello"), "fallback");
    let rtf_hash = compute_semantic_hash("RTF", Some("hello"), "fallback");

    assert_eq!(text_hash, html_hash);
    assert_eq!(text_hash, rtf_hash);
    assert_ne!(text_hash, "fallback");
}

#[test]
fn normalize_empty_string() {
    assert_eq!(normalize_semantic_text(""), "");
}

#[test]
fn normalize_whitespace_only() {
    assert_eq!(normalize_semantic_text("  \t\n\r\n  "), "");
}

#[test]
fn normalize_preserves_cjk() {
    assert_eq!(normalize_semantic_text("你好世界"), "你好世界");
}

#[test]
fn normalize_preserves_emoji() {
    assert_eq!(normalize_semantic_text("hello 🎉 world"), "hello 🎉 world");
}

#[test]
fn normalize_mixed_line_endings() {
    assert_eq!(normalize_semantic_text("a\r\nb\rc\n"), "a\nb\nc");
}

#[test]
fn semantic_hash_empty_returns_none() {
    assert_eq!(semantic_hash_from_text(""), None);
    assert_eq!(semantic_hash_from_text("  \t"), None);
}

#[test]
fn semantic_hash_same_text_same_hash() {
    let h1 = semantic_hash_from_text("hello world");
    let h2 = semantic_hash_from_text("hello world");
    assert_eq!(h1, h2);
}

#[test]
fn semantic_hash_different_text_different_hash() {
    let h1 = semantic_hash_from_text("hello");
    let h2 = semantic_hash_from_text("world");
    assert_ne!(h1, h2);
}

#[test]
fn compute_semantic_hash_non_text_uses_fallback() {
    let hash = compute_semantic_hash("image", Some("hello"), "fallback_hash");
    assert_eq!(hash, "fallback_hash");
}

#[test]
fn compute_semantic_hash_text_without_content_uses_fallback() {
    let hash = compute_semantic_hash("text", None, "fallback_hash");
    assert_eq!(hash, "fallback_hash");
}

#[test]
fn is_url_accepts_http_and_https() {
    assert!(is_url("https://example.com/path?q=1"));
    assert!(is_url("http://example.com"));
    assert!(is_url("  https://a.co  "));
}

#[test]
fn is_url_accepts_www_prefix() {
    assert!(is_url("www.example.com/page"));
}

#[test]
fn is_url_rejects_multiline_and_plain_text() {
    assert!(!is_url("hello world"));
    assert!(!is_url("https://a.com\nline2"));
    assert!(!is_url("visit https://example.com"));
    assert!(!is_url("http://"));
    assert!(!is_url("www."));
}

#[test]
fn semantic_hash_ignores_line_ending_and_trailing_blank_differences() {
    assert_eq!(
        semantic_hash_from_text("a\r\nb  \n"),
        semantic_hash_from_text("a\nb")
    );
}

#[test]
fn semantic_hash_is_the_blake3_digest_of_tagged_text() {
    let expected = blake3::hash(b"text:hello").to_hex().to_string();
    assert_eq!(semantic_hash_from_text("hello"), Some(expected));
}

#[test]
fn is_url_accepts_ftp_and_mixed_case_scheme() {
    assert!(is_url("FTP://files.example.org"));
    assert!(is_url("HtTpS://x.y"));
    assert!(!is_url("ftp://localhost"));
}

#[test]
fn url_test_is_false_for_words_without_a_scheme() {
    assert!(is_url("  www.example.com  "));
    assert!(!is_url(""));
    assert!(!is_url("你好"));
    assert!(!is_url("abcdefé"));
    assert!(!is_url("abcdefgé"));
    assert!(!is_url("abcdefghé"));
    assert!(!is_url("ééé.com"));
}

#[test]
fn normalising_twice_changes_nothing() {
    let once = normalize_semantic_text("a\u{00A0}b \t\r\n\u{200B}c\t\r\r\n\n");
    assert_eq!(once, "a b\nc");
    assert_eq!(normalize_semantic_text(&once), once);
    assert!(!once.contains('\r'));
    assert!(once.split('\n').all(|l| !l.ends_with(' ') && !l.ends_with('\t')));
}

#[test]
fn semantic_hash_is_a_hex_digest() {
    let h = compute_semantic_hash("TEXT", Some("hello"), "fallback");
    assert_eq!(h.len(), 64);
    assert!(h.chars().all(|c| c.is_ascii_hexdigit() && !c.is_ascii_uppercase()));
    assert_ne!(h, "fallback");
}

#[test]
fn texts_that_normalise_alike_hash_alike() {
    assert_eq!(semantic_hash_from_text(""), None);
    assert_eq!(semantic_hash_from_text("  \t"), None);
    assert_eq!(semantic_hash_from_text("hello\r\n"), semantic_hash_from_text("hello"));
    assert_eq!(semantic_hash_from_text("a \r\nb"), semantic_hash_from_text("a\nb"));
}
