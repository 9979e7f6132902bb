//! Records of the clipboard history and their content types.
use vstd::prelude::*;

verus! {

/// Kind of a clipboard entry.
#[derive(Clone, Copy, Debug, PartialEq, Eq, Structural)]
pub enum ContentType {
    Text,
    Image,
    Html,
    Rtf,
    Files,
    Url,
}

pub open spec fn content_type_name(t: ContentType) -> Seq<char> {
    match t {
        ContentType::Text => seq!['t', 'e', 'x', 't'],
        ContentType::Image => seq!['i', 'm', 'a', 'g', 'e'],
        ContentType::Html => seq!['h', 't', 'm', 'l'],
        ContentType::Rtf => seq!['r', 't', 'f'],
        ContentType::Files => seq!['f', 'i', 'l', 'e', 's'],
        ContentType::Url => seq!['u', 'r', 'l'],
    }
}

/// Each content type has its own name, so the stored name gives the type back.
pub proof fn lemma_content_type_names_distinct(a: ContentType, b: ContentType)
    ensures
        content_type_name(a) == content_type_name(b) ==> a == b,
{
    if content_type_name(a) == content_type_name(b) {
        let n = content_type_name(a);
        assert(n[0] == content_type_name(b)[0]);
        if n.len() > 1 {
            assert(n[1] == content_type_name(b)[1]);
        }
    }
}

impl ContentType {
    /// The name stored in the database.
    pub fn as_str(&self) -> (s: &'static str)
        ensures
            s@ == content_type_name(*self),
    {
        let s = match self {
            ContentType::Text => "text",
            ContentType::Image => "image",
            ContentType::Html => "html",
            ContentType::Rtf => "rtf",
            ContentType::Files => "files",
            ContentType::Url => "url",
        };
        proof {
            reveal_strlit("text");
            reveal_strlit("image");
            reveal_strlit("html");
            reveal_strlit("rtf");
            reveal_strlit("files");
            reveal_strlit("url");
        }
        s
    }
}

/// Column holding one of the two item hashes.
#[derive(Clone, Copy, Debug, PartialEq, Eq, Structural)]
pub enum HashColumn {
    Content,
    Semantic,
}

impl HashColumn {
    pub fn as_sql(self) -> (s: &'static str)
        ensures
            s@ == (match self {
                HashColumn::Content => seq!['c', 'o', 'n', 't', 'e', 'n', 't', '_', 'h', 'a', 's', 'h'],
                HashColumn::Semantic => seq![
                    's', 'e', 'm', 'a', 'n', 't', 'i', 'c', '_', 'h', 'a', 's', 'h',
                ],
            }),
    {
        let s = match self {
            HashColumn::Content => "content_hash",
            HashColumn::Semantic => "semantic_hash",
        };
        proof {
            reveal_strlit("content_hash");
            reveal_strlit("semantic_hash");
        }
        s
    }
}

/// A stored clipboard entry.
#[derive(Clone, Debug)]
pub struct ClipboardItem {
    pub id: i64,
    pub content_type: String,
    pub text_content: Option<String>,
    pub html_content: Option<String>,
    pub rtf_content: Option<String>,
    pub image_path: Option<String>,
    pub file_paths: Option<String>,
    pub file_payload: Option<String>,
    pub content_hash: String,
    pub semantic_hash: String,
    pub preview: Option<String>,
    pub byte_size: i64,
    pub image_width: Option<i64>,
    pub image_height: Option<i64>,
    pub is_pinned: bool,
    pub is_favorite: bool,
    pub favorite_order: i64,
    pub sort_order: i64,
    pub created_at: String,
    pub updated_at: String,
    pub access_count: i64,
    pub last_accessed_at: Option<String>,
    pub char_count: Option<i64>,
    pub source_app_name: Option<String>,
    pub source_app_icon: Option<String>,
    pub group_id: Option<i64>,
    pub files_valid: Option<bool>,
}

/// An entry about to be stored.
#[derive(Clone, Debug)]
pub struct NewClipboardItem {
    pub content_type: ContentType,
    pub text_content: Option<String>,
    pub html_content: Option<String>,
    pub rtf_content: Option<String>,
    pub image_path: Option<String>,
    pub file_paths: Option<Vec<String>>,
    pub file_payload: Option<String>,
    pub content_hash: String,
    pub semantic_hash: String,
    pub preview: Option<String>,
    pub byte_size: i64,
    pub image_width: Option<i64>,
    pub image_height: Option<i64>,
    pub char_count: Option<i64>,
    pub source_app_name: Option<String>,
    pub source_app_icon: Option<String>,
    pub source_title: Option<String>,
    pub source_url: Option<String>,
    pub source_file_name: Option<String>,
    pub is_locked: bool,
    pub group_id: Option<i64>,
}

impl Default for NewClipboardItem {
    fn default() -> (item: Self)
        ensures
            item.content_type == ContentType::Text,
            item.text_content is None,
            item.html_content is None,
            item.rtf_content is None,
            item.image_path is None,
            item.file_paths is None,
            item.file_payload is None,
            item.content_hash@ == Seq::<char>::empty(),
            item.semantic_hash@ == Seq::<char>::empty(),
            item.preview is None,
            item.byte_size == 0,
            item.image_width is None,
            item.image_height is None,
            item.char_count is None,
            item.source_app_name is None,
            item.source_app_icon is None,
            item.source_title is None,
            item.source_url is None,
            item.source_file_name is None,
            !item.is_locked,
            item.group_id is None,
    {
        NewClipboardItem {
            content_type: ContentType::Text,
            text_content: None,
            html_content: None,
            rtf_content: None,
            image_path: None,
            file_paths: None,
            file_payload: None,
            content_hash: String::new(),
            semantic_hash: String::new(),
            preview: None,
            byte_size: 0,
            image_width: None,
            image_height: None,
            char_count: None,
            source_app_name: None,
            source_app_icon: None,
            source_title: None,
            source_url: None,
            source_file_name: None,
            is_locked: false,
            group_id: None,
        }
    }
}

/// Filters of a history query.
#[derive(Clone, Debug)]
pub struct QueryOptions {
    pub search: Option<String>,
    pub content_type: Option<String>,
    pub pinned_only: bool,
    pub favorite_only: bool,
    pub group_id: Option<i64>,
    pub limit: Option<i64>,
    pub offset: Option<i64>,
}

impl Default for QueryOptions {
    fn default() -> (o: Self)
        ensures
            o.search is None,
            o.content_type is None,
            !o.pinned_only,
            !o.favorite_only,
            o.group_id is None,
            o.limit is None,
            o.offset is None,
    {
        QueryOptions {
            search: None,
            content_type: None,
            pinned_only: false,
            favorite_only: false,
            group_id: None,
            limit: None,
            offset: None,
        }
    }
}

/// A user-defined group of entries.
#[derive(Clone, Debug)]
pub struct Group {
    pub id: i64,
    pub name: String,
    pub color: Option<String>,
    pub sort_order: i64,
    pub created_at: String,
    pub item_count: i64,
}

} // verus!
