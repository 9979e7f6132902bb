use elegant_clipboard::dedup::semantic_hash_from_text;
use elegant_clipboard::text_edit::{edit_deletes_item, edited_text};

#[test]
fn blank_edit_deletes_the_item() {
    assert!(edit_deletes_item(""));
    assert!(edit_deletes_item("  \n\t "));
    assert!(!edit_deletes_item(" x "));
}

#[test]
fn edited_text_gets_fresh_fields() {
    let e = edited_text("updated text");
    assert_eq!(e.char_count, 12);
    assert_eq!(e.byte_size, 12);
    assert_eq!(e.preview, "updated text");
    assert_eq!(e.content_hash, blake3::hash(b"text:updated text").to_hex().to_string());
    assert_eq!(Some(e.semantic_hash), semantic_hash_from_text("updated text"));
}

#[test]
fn edited_preview_is_cut_at_two_hundred_characters() {
    let long: String = "é".repeat(250);
    let e = edited_text(&long);
    assert_eq!(e.preview.chars().count(), 200);
    assert_eq!(e.char_count, 250);
    assert_eq!(e.byte_size, 500);
}

#[test]
fn edited_blank_text_falls_back_to_content_hash() {
    let e = edited_text("   ");
    assert_eq!(semantic_hash_from_text("   "), None);
    assert_eq!(e.semantic_hash, e.content_hash);
}
