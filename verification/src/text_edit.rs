//! Editing the text of a stored item. Text left blank deletes the item (under the
//! lock rule of `deletion`); other text replaces the item's content, which becomes
//! plain text with fresh hashes, preview and sizes.
use vstd::prelude::*;
use crate::capture::utf8;
use crate::dedup::{hash_with_prefix, semantic_hash_from_text, semantic_hash_spec};
use crate::hashing::blake3_hex_digest;
use crate::text::{byte_len, byte_len_of, chars_of, string_of_range, trim, trim_bounds};

verus! {

/// Whether an edit leaves the text blank, so that the item is deleted instead.
pub fn edit_deletes_item(new_text: &str) -> (b: bool)
    ensures
        b == (trim(new_text@).len() == 0),
{
    let cs = chars_of(new_text);
    let (start, end) = trim_bounds(cs.as_slice());
    start == end
}

/// The stored fields of an item whose text was edited.
pub struct EditedText {
    pub preview: String,
    pub content_hash: String,
    pub semantic_hash: String,
    pub byte_size: i64,
    pub char_count: i64,
}

/// The preview kept for edited text: its first 200 characters.
pub open spec fn edit_preview(text: Seq<char>) -> Seq<char> {
    if text.len() > 200 {
        text.take(200)
    } else {
        text
    }
}

/// The content hash of plain text: the digest of `text:` followed by its UTF-8 bytes.
pub open spec fn text_content_hash(text: Seq<char>) -> Seq<char> {
    blake3_hex_digest(utf8("text:"@) + utf8(text))
}

/// The fields stored for edited text: its first 200 characters as preview, the content
/// hash of plain text, the semantic hash (the content hash when the normalised text
/// is empty), and its size in bytes and characters.
pub fn edited_text(new_text: &str) -> (e: EditedText)
    ensures
        e.preview@ == edit_preview(new_text@),
        e.content_hash@ == text_content_hash(new_text@),
        e.semantic_hash@ == match semantic_hash_spec(new_text@) {
            Some(h) => h,
            None => text_content_hash(new_text@),
        },
        e.byte_size == (byte_len(new_text@) as usize) as i64,
        e.char_count == new_text@.len() as i64,
{
    let cs = chars_of(new_text);
    let n = cs.len();
    let cut = if n > 200 {
        200
    } else {
        n
    };
    let preview = string_of_range(cs.as_slice(), 0, cut);
    proof {
        reveal_strlit("text:");
    }
    let content_hash = hash_with_prefix("text:".as_bytes(), new_text.as_bytes());
    let semantic_hash = match semantic_hash_from_text(new_text) {
        Some(h) => h,
        None => content_hash.clone(),
    };
    let byte_size = byte_len_of(new_text) as i64;
    EditedText { preview, content_hash, semantic_hash, byte_size, char_count: n as i64 }
}

} // verus!
