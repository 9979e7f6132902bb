use elegant_clipboard::capture::{
    content_size, files_item, files_preview, image_file_name, image_item, is_content_type_allowed,
    is_text_like, note_capture, process_html, process_rtf, process_text, staged_dir_name,
    ClipboardContent, ContentHashes, DuplicateAction, ImageCapture, LastCapture, ProcessSettings,
};
use elegant_clipboard::database::{ContentType, HashColumn};
use elegant_clipboard::file_clipboard::FileCaptureData;
use elegant_clipboard::handler::ClipChangeSettings;

fn hashes() -> ContentHashes {
    ContentHashes { content_hash: "c".repeat(64), semantic_hash: "s".into() }
}

#[test]
fn settings_from_stored_values() {
    let s = ProcessSettings::from_values(Some("2"), None, Some("strict"), Some("50"), Some("x"));
    assert_eq!(s.max_content_size, 2048);
    assert_eq!(s.dedup_strategy, "move_to_top");
    assert_eq!(s.text_dedup_mode, "strict");
    assert_eq!(s.max_history_count, 50);
    assert_eq!(s.auto_cleanup_days, 30);
    let d = ProcessSettings::from_values(None, Some("always_new"), None, None, Some("-3"));
    assert_eq!(d.max_content_size, 1_048_576);
    assert_eq!(d.text_dedup_mode, "semantic");
    assert_eq!(d.max_history_count, 0);
    assert_eq!(d.auto_cleanup_days, -3);
    assert!(!d.limits_history());
    assert!(!d.cleans_up_old_items());
    assert_eq!(d.duplicate_lookup(true), None);
    assert_eq!(s.duplicate_lookup(true), Some(HashColumn::Content));
    let semantic = ProcessSettings::from_values(None, Some("ignore"), None, None, None);
    assert_eq!(semantic.duplicate_lookup(true), Some(HashColumn::Semantic));
    assert_eq!(semantic.duplicate_lookup(false), Some(HashColumn::Content));
    assert_eq!(semantic.on_duplicate(), DuplicateAction::Ignore);
    assert_eq!(s.on_duplicate(), DuplicateAction::MoveToTop);
}

#[test]
fn clip_change_settings_from_stored_values() {
    let c = ClipChangeSettings::from_values(Some("true"), Some(""), None, Some("10"));
    assert_eq!(c.max_image_bytes, 10240);
    let big = ClipChangeSettings::from_values(None, None, None, Some("18446744073709551615"));
    assert_eq!(big.max_image_bytes, usize::MAX);
    let dflt = ClipChangeSettings::from_values(None, None, None, Some("abc"));
    assert_eq!(dflt.max_image_bytes, 50 * 1024 * 1024);
}

#[test]
fn size_limit_applies_to_text_like_content() {
    let s = ProcessSettings::from_values(Some("1"), None, None, None, None);
    let long = ClipboardContent::Text("é".repeat(600));
    assert_eq!(content_size(&long), 1200);
    assert!(s.exceeds_content_limit(&long));
    let files = ClipboardContent::Files(FileCaptureData {
        paths: vec!["a".repeat(2000)],
        hdrop_raw: None,
        extra_formats: vec![],
    });
    assert_eq!(content_size(&files), 2000);
    assert!(!is_text_like(&files));
    assert!(!s.exceeds_content_limit(&files));
    let unlimited = ProcessSettings::from_values(Some("0"), None, None, None, None);
    assert!(!unlimited.exceeds_content_limit(&long));
}

#[test]
fn repeats_in_a_row_are_skipped_per_database() {
    let s = ProcessSettings::from_values(None, None, None, None, None);
    let (skip, last) = note_capture(&s, None, "db1", "h");
    assert!(!skip);
    let (skip, last) = note_capture(&s, last, "db1", "h");
    assert!(skip);
    let (skip, last) = note_capture(&s, last, "db2", "h");
    assert!(!skip);
    assert_eq!(last, Some(LastCapture { db_path: "db2".into(), content_hash: "h".into() }));
    let always = ProcessSettings::from_values(None, Some("always_new"), None, None, None);
    let (skip, kept) = note_capture(&always, last.clone(), "db2", "h");
    assert!(!skip);
    assert_eq!(kept, last);
}

#[test]
fn monitored_types() {
    let text = ClipboardContent::Text("x".into());
    assert!(is_content_type_allowed(None, &text, false));
    assert!(is_content_type_allowed(Some(""), &text, true));
    assert!(is_content_type_allowed(Some("html, text"), &text, false));
    assert!(!is_content_type_allowed(Some("html,text"), &text, true));
    assert!(is_content_type_allowed(Some("url"), &text, true));
    let rtf = ClipboardContent::Rtf { rtf: "r".into(), text: None };
    assert!(!is_content_type_allowed(Some("text"), &rtf, false));
}

#[test]
fn stored_records() {
    let t = process_text("  https://a.co  ".into(), true, &hashes(), 0);
    assert_eq!(t.content_type, ContentType::Url);
    assert_eq!(t.text_content.as_deref(), Some("https://a.co"));
    assert_eq!(t.char_count, Some(12));
    assert_eq!(t.byte_size, 12);
    let cut = process_text("héllo".into(), false, &hashes(), 2);
    assert_eq!(cut.text_content.as_deref(), Some("hé"));
    assert_eq!(cut.preview.as_deref(), Some("héllo"));
    assert_eq!(cut.char_count, Some(5));

    let h = process_html("<b>x</b>".into(), None, Some("rtf".into()), Some("https://s".into()), &hashes(), 0);
    assert_eq!(h.content_type, ContentType::Html);
    assert_eq!(h.preview.as_deref(), Some("<b>x</b>"));
    assert_eq!(h.byte_size, 8);
    assert_eq!(h.char_count, None);
    assert_eq!(h.source_url.as_deref(), Some("https://s"));
    let r = process_rtf("{\\rtf1}".into(), None, &hashes());
    assert_eq!(r.preview.as_deref(), Some("[RTF Content]"));
    assert_eq!(r.byte_size, 7);

    let cap = ImageCapture { temp_path: "t".into(), width: 3, height: 4, byte_size: 99, dib_path: None };
    let img = image_item(&cap, &hashes(), "D:/img.png".into());
    assert_eq!(img.preview.as_deref(), Some("[图片]"));
    assert_eq!((img.image_width, img.image_height, img.byte_size), (Some(3), Some(4), 99));
    assert_eq!(image_file_name(&"ab".repeat(32), "png"), format!("{}.png", "ab".repeat(16)));

    assert_eq!(files_preview(&vec![]), "[文件]");
    assert_eq!(files_preview(&vec!["C:/a".into()]), "C:/a");
    assert_eq!(files_preview(&vec!["a".into(), "b".into(), "c".into()]), "3 files");
    let f = files_item(
        FileCaptureData { paths: vec!["a".into(), "b".into()], hdrop_raw: None, extra_formats: vec![] },
        "{}".into(),
        &hashes(),
        10,
    );
    assert_eq!(f.preview.as_deref(), Some("2 files"));
    assert_eq!(f.file_payload.as_deref(), Some("{}"));
    assert_eq!(staged_dir_name("abcdef0123"), "abcdef01");
    assert_eq!(staged_dir_name("abc"), "abc");
}
