use elegant_clipboard::capture::{note_capture, process_html, ContentHashes, ProcessSettings};
use elegant_clipboard::database::{ContentType, NewClipboardItem};
use elegant_clipboard::handler::{
    attach_source_file_name, parse_cf_html_source_url, source_file_name_from_title,
    ClipChangeSettings, SourceAppInfo,
};

#[test]
fn parses_http_source_url_from_cf_html_header() {
    assert_eq!(
        parse_cf_html_source_url("Version:1.0\r\nSourceURL:https://example.com/page?q=1\r\n<html>"),
        Some("https://example.com/page?q=1".to_string())
    );
    assert_eq!(
        parse_cf_html_source_url("Version:1.0\nSourceURL: http://example.com/a\n<html>"),
        Some("http://example.com/a".to_string())
    );
    assert_eq!(
        parse_cf_html_source_url("Version:1.0\nSourceURL:HTTPS://example.com/a\n<html>"),
        Some("HTTPS://example.com/a".to_string())
    );
    assert_eq!(
        parse_cf_html_source_url(
            "Version:1.0\nStartHTML:00000040\n<html>\nSourceURL:https://evil.example\n"
        ),
        None
    );
}

#[test]
fn preserves_source_url_when_html_body_has_already_been_extracted() {
    let hashes = ContentHashes {
        content_hash: "content".to_string(),
        semantic_hash: "semantic".to_string(),
    };
    let raw_cf_html = "Version:1.0\r\nStartHTML:00000100\r\nEndHTML:00000140\r\nSourceURL:https://example.com/source\r\n<html>body</html>";
    let item = process_html(
        "<html><body>fragment only</body></html>".to_string(),
        None,
        None,
        parse_cf_html_source_url(raw_cf_html),
        &hashes,
        1024 * 1024,
    );
    assert_eq!(item.source_url.as_deref(), Some("https://example.com/source"));
}

#[test]
fn rejects_missing_or_non_http_cf_html_source_url() {
    assert_eq!(parse_cf_html_source_url("Version:1.0\n<html>"), None);
    assert_eq!(parse_cf_html_source_url("SourceURL:file:///C:/secret.txt\n<html>"), None);
    assert_eq!(parse_cf_html_source_url("SourceURL:javascript:alert(1)\n<html>"), None);
}

#[test]
fn conservatively_extracts_file_name_from_window_title() {
    assert_eq!(
        source_file_name_from_title(
            "C:\\Users\\Administrator\\Desktop\\report.docx - Microsoft Word",
            false,
        ),
        Some("report.docx".to_string()),
    );
    assert_eq!(
        source_file_name_from_title(
            "plan - final.txt [C:\\Users\\Administrator\\Desktop] - Notepad3",
            true,
        ),
        Some("plan - final.txt".to_string()),
    );
    assert_eq!(
        source_file_name_from_title(
            "新建文本文档.txt [C:\\Users\\Administrator\\Desktop] - Notepad3 · 管理员权限",
            true,
        ),
        Some("新建文本文档.txt".to_string()),
    );
    assert_eq!(
        source_file_name_from_title("report.final.pdf - Microsoft Edge", false),
        Some("report.final.pdf".to_string())
    );
    assert_eq!(source_file_name_from_title("Inbox - Mail", false), None);
    assert_eq!(source_file_name_from_title("example.com - Google Chrome", false), None);
    for name in ["notes.txt", "deck.pptx", "report.docx", "main.rs", "app.tsx"] {
        assert_eq!(
            source_file_name_from_title(&format!("{name} - Editor"), true),
            Some(name.to_string())
        );
    }
    let mut browser_item = NewClipboardItem::default();
    attach_source_file_name(&mut browser_item, Some("docs.rs - Browser"), Some("Google Chrome"));
    assert_eq!(browser_item.source_file_name, None);

    let mut editor_item = NewClipboardItem::default();
    attach_source_file_name(
        &mut editor_item,
        Some("main.rs - Visual Studio Code"),
        Some("Visual Studio Code"),
    );
    assert_eq!(editor_item.source_file_name.as_deref(), Some("main.rs"));
}

#[test]
fn source_file_name_is_only_attached_to_text_like_items() {
    for content_type in [ContentType::Files, ContentType::Image] {
        let mut item = NewClipboardItem { content_type, ..Default::default() };
        attach_source_file_name(&mut item, Some("report.docx - App"), Some("App"));
        assert_eq!(item.source_file_name, None);
    }

    for content_type in [ContentType::Text, ContentType::Html, ContentType::Rtf] {
        let mut item = NewClipboardItem { content_type, ..Default::default() };
        attach_source_file_name(&mut item, Some("report.docx - App"), Some("App"));
        assert_eq!(item.source_file_name.as_deref(), Some("report.docx"));
    }
}

#[test]
fn memory_dedup_is_scoped_to_active_database() {
    let settings = ProcessSettings::from_values(None, None, None, None, None);
    let (skip, last) = note_capture(&settings, None, "first/clipboard.db", "hash-of-same");
    assert!(!skip);
    let (skip, _) = note_capture(&settings, last, "second/clipboard.db", "hash-of-same");
    assert!(!skip);
}

#[test]
fn memory_dedup_still_skips_consecutive_hash_in_same_database() {
    let settings = ProcessSettings::from_values(None, None, None, None, None);
    let (skip, last) = note_capture(&settings, None, "first/clipboard.db", "hash-of-same");
    assert!(!skip);
    let (skip, _) = note_capture(&settings, last, "first/clipboard.db", "hash-of-same");
    assert!(skip);
}

#[test]
fn source_filter_matches_the_process_file_name() {
    let src = Some(SourceAppInfo {
        app_name: "Password Safe".into(),
        exe_path: "C:\\Apps\\KeePass.exe".into(),
        icon_cache_key: "k".into(),
        source_title: None,
    });
    let black = ClipChangeSettings::new(true, Some("kee*.exe".into()), "blacklist".into(), 0);
    assert!(black.is_source_app_excluded(&src));
    let white = ClipChangeSettings::new(true, Some("kee*.exe".into()), "whitelist".into(), 0);
    assert!(!white.is_source_app_excluded(&src));
    let other = ClipChangeSettings::new(true, Some("word*.exe".into()), "blacklist".into(), 0);
    assert!(!other.is_source_app_excluded(&src));
    assert!(!black.is_source_app_excluded(&None));
    let off = ClipChangeSettings::new(false, Some("kee*.exe".into()), "blacklist".into(), 0);
    assert!(!off.is_source_app_excluded(&src));
}

#[test]
fn image_limit_counts_four_bytes_a_pixel() {
    let limited = ClipChangeSettings::new(false, None, "blacklist".into(), 400);
    assert!(!limited.image_too_large(10, 10));
    assert!(limited.image_too_large(10, 11));
    assert!(limited.image_too_large(u32::MAX, u32::MAX));
    let unlimited = ClipChangeSettings::new(false, None, "blacklist".into(), 0);
    assert!(!unlimited.image_too_large(u32::MAX, u32::MAX));
}
