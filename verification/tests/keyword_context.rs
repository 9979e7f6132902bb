use elegant_clipboard::keyword_context::{
    build_context_snippet, extract_keyword_context, find_keyword_char_pos_slow, keyword_context,
};

#[test]
fn keyword_at_start() {
    let result = extract_keyword_context("hello world foo bar", "hello", 20);
    assert!(result.contains("hello"), "result: {result}");
}

#[test]
fn keyword_in_middle() {
    let result = extract_keyword_context("aaa bbb ccc ddd eee", "ccc", 15);
    assert!(result.contains("ccc"), "result: {result}");
}

#[test]
fn keyword_at_end() {
    let result = extract_keyword_context("foo bar baz qux", "qux", 15);
    assert!(result.contains("qux"), "result: {result}");
}

#[test]
fn keyword_not_found_returns_prefix() {
    let text = "abcdefghijklmnop";
    let result = extract_keyword_context(text, "xyz", 5);
    assert_eq!(result, text.chars().take(5).collect::<String>());
}

#[test]
fn clipboard_case_insensitive() {
    let result = extract_keyword_context("Hello World", "hello", 20);
    assert!(result.contains("Hello"), "result: {result}");
}

#[test]
fn cjk_keyword() {
    let result = extract_keyword_context("这是一段中文文本用于测试", "中文", 10);
    assert!(result.contains("中文"), "result: {result}");
}

#[test]
fn cjk_text_with_emoji() {
    let result = extract_keyword_context("测试 🎉 emoji 关键词搜索", "关键词", 15);
    assert!(result.contains("关键词"), "result: {result}");
}

#[test]
fn empty_keyword_returns_prefix() {
    let text = "hello world";
    let result = extract_keyword_context(text, "", 5);
    assert!(result.starts_with("hell"), "result: {result}");
}

#[test]
fn empty_text() {
    let result = extract_keyword_context("", "keyword", 10);
    assert_eq!(result, "");
}

#[test]
fn max_len_larger_than_text() {
    let result = extract_keyword_context("short", "short", 100);
    assert_eq!(result, "short");
}

#[test]
fn unicode_boundary_safety() {
    let result = extract_keyword_context("émoji 🎉 test", "🎉", 20);
    assert!(result.contains("🎉"), "result: {result}");
}

#[test]
fn snippet_marks_cut_ends() {
    // 9 before the keyword at 12 is cut to 3 (= 9 / 3), 6 after its 3 characters
    let result = extract_keyword_context("0123456789abXYZcdefghijklmn", "xyz", 9);
    assert_eq!(result, "...9abXYZcdefgh...");
    assert_eq!(build_context_snippet("0123456789", 5, 1, 3), "...4567...");
    assert_eq!(build_context_snippet("0123456789", 0, 0, 0), "");
}

#[test]
fn empty_keyword_context_starts_at_text_start() {
    assert_eq!(extract_keyword_context("hello world", "", 5), "hell...");
}

#[test]
fn slow_search_finds_first_folded_window() {
    assert_eq!(find_keyword_char_pos_slow("aXbxB", "xb"), Some(1));
    assert_eq!(find_keyword_char_pos_slow("abc", "zz"), None);
    assert_eq!(find_keyword_char_pos_slow("", ""), None);
    assert_eq!(find_keyword_char_pos_slow("ab", ""), Some(0));
}

#[test]
fn checked_context_agrees_when_lengths_fit() {
    assert_eq!(keyword_context("abc", "b", usize::MAX), Some("abc".to_string()));
    assert_eq!(keyword_context("abc", "z", usize::MAX), Some("abc".to_string()));
    assert_eq!(keyword_context("abc", "b", 3), Some("abc".to_string()));
}
