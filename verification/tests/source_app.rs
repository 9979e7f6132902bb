use elegant_clipboard::capture::{content_hash, image_content_hash, semantic_hash_for, ClipboardContent};
use elegant_clipboard::file_clipboard::FileCaptureData;
use elegant_clipboard::source_app::{
    bgra_to_rgba, compute_icon_cache_key_pub, display_name_with_description, file_name_of, file_stem_of,
    get_app_display_name_pub, icon_file_name,
};

fn hex(bytes: &[u8]) -> String {
    blake3::hash(bytes).to_hex().to_string()
}

#[test]
fn display_names_from_executables() {
    assert_eq!(get_app_display_name_pub("C:\\Program Files\\Code\\Code.exe"), "Code");
    assert_eq!(get_app_display_name_pub("/usr/bin/archive.tar.gz"), "archive.tar");
    assert_eq!(get_app_display_name_pub("C:\\tools\\.hidden"), ".hidden");
    assert_eq!(get_app_display_name_pub(""), "Unknown");
    assert_eq!(get_app_display_name_pub("C:\\dir\\.."), "Unknown");
    assert_eq!(display_name_with_description(Some("Visual Studio Code"), "x.exe"), "Visual Studio Code");
    assert_eq!(display_name_with_description(Some(""), "D:/a/notepad.exe"), "notepad");
    assert_eq!(file_name_of("C:"), None);
    assert_eq!(file_name_of("C:dir\\f.txt/"), Some("f.txt".to_string()));
    assert_eq!(file_stem_of("name."), "name");
}

#[test]
fn icon_cache_keys() {
    let key = compute_icon_cache_key_pub("C:\\Apps\\Foo.EXE");
    assert_eq!(key, hex("c:\\apps\\foo.exe".as_bytes())[..12].to_string());
    assert_eq!(key, compute_icon_cache_key_pub("c:\\apps\\foo.exe"));
    assert_eq!(key.len(), 12);
    assert!(key.chars().all(|c| matches!(c, '0'..='9' | 'a'..='f')));
    assert_eq!(icon_file_name("abc"), "abc.png");
}

#[test]
fn content_hashes_are_tagged() {
    let text = ClipboardContent::Text("hello".into());
    assert_eq!(content_hash(&text, None), Some(hex(b"text:hello")));
    assert_eq!(content_hash(&text, Some("https://a.co")), Some(hex(b"url:https://a.co")));
    let html = ClipboardContent::Html { html: "<b>x</b>".into(), text: None, rtf: None, source_url: None };
    assert_eq!(content_hash(&html, None), Some(hex(b"html:<b>x</b>")));
    let files = ClipboardContent::Files(FileCaptureData {
        paths: vec!["a".into(), "b".into()],
        hdrop_raw: Some(vec![1, 2]),
        extra_formats: vec![],
    });
    assert_eq!(content_hash(&files, None), Some(hex(b"files:a|b|hdrop:\x01\x02")));
    assert_eq!(image_content_hash(&[9, 9]), hex(b"image:\x09\x09"));
}

#[test]
fn semantic_hashes_by_content() {
    let link = ClipboardContent::Text("https://a.co".into());
    assert_eq!(semantic_hash_for(&link, "C"), "C");
    let blank = ClipboardContent::Text("  \n ".into());
    assert_eq!(semantic_hash_for(&blank, "C"), "C");
    let text = ClipboardContent::Text("a\r\nb".into());
    assert_eq!(semantic_hash_for(&text, "C"), hex(b"text:a\nb"));
    let files = ClipboardContent::Files(FileCaptureData::default());
    assert_eq!(semantic_hash_for(&files, "C"), "C");
}

#[test]
fn icon_pixels_turn_from_bgra_to_rgba() {
    let mut px = vec![1, 2, 3, 4, 10, 20, 30, 40, 7, 8];
    bgra_to_rgba(&mut px);
    assert_eq!(px, vec![3, 2, 1, 4, 30, 20, 10, 40, 7, 8]);
    let mut empty: Vec<u8> = Vec::new();
    bgra_to_rgba(&mut empty);
    assert!(empty.is_empty());
}
