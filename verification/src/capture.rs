//! Deciding what becomes of captured clipboard content: the settings that govern it,
//! whether it is skipped as too large or as a repeat, which stored hash finds its
//! duplicates, and the record that is stored for it.
//!
//! The database and the files stay with the caller: it reads the settings, asks
//! whether a duplicate exists, moves image files, and stores the record these
//! functions build.
use vstd::prelude::*;
use crate::database::{ContentType, HashColumn, NewClipboardItem};
use crate::file_clipboard::FileCaptureData;
use crate::handler::{create_preview, preview_spec, truncate_content};
use crate::numbers::{parse_i64, parse_i64_spec, parse_usize, parse_usize_spec};
use crate::text::{
    append_chars, byte_len, byte_len_of, chars_eq, chars_of, decimal, decimal_chars, split_chars,
    split_on, string_of, trim, trim_chars,
};

verus! {

/// Text content above this many bytes is skipped unless configured otherwise (1 MB).
pub const DEFAULT_MAX_CONTENT_SIZE: usize = 1048576;

/// Images above this many bytes are not captured unless configured otherwise (50 MB).
pub const DEFAULT_MAX_IMAGE_SIZE: usize = 52428800;

/// No limit on the number of items unless configured.
pub const DEFAULT_MAX_HISTORY_COUNT: i64 = 0;

/// Items older than this many days are removed unless configured otherwise.
pub const DEFAULT_AUTO_CLEANUP_DAYS: i64 = 30;

/// An image written by the clipboard watcher to a temporary file.
#[derive(Debug, Clone)]
pub struct ImageCapture {
    pub temp_path: String,
    pub width: u32,
    pub height: u32,
    pub byte_size: usize,
    /// The raw device-independent bitmap kept beside the PNG, for programs that paste
    /// that format.
    pub dib_path: Option<String>,
}

/// Content read from the clipboard.
#[derive(Debug, Clone)]
pub enum ClipboardContent {
    Text(String),
    Html { html: String, text: Option<String>, rtf: Option<String>, source_url: Option<String> },
    Rtf { rtf: String, text: Option<String> },
    ImageFile(ImageCapture),
    Files(FileCaptureData),
}

/// Content whose text is kept: plain text, HTML and RTF.
pub open spec fn is_text_like_content(c: ClipboardContent) -> bool {
    c is Text || c is Html || c is Rtf
}

/// Whether the content is text, HTML or RTF.
pub fn is_text_like(content: &ClipboardContent) -> (b: bool)
    ensures
        b == is_text_like_content(*content),
{
    match content {
        ClipboardContent::Text(_) | ClipboardContent::Html { .. } | ClipboardContent::Rtf { .. } => true,
        _ => false,
    }
}

pub open spec fn sum_byte_lens(paths: Seq<String>) -> nat
    decreases paths.len(),
{
    if paths.len() == 0 {
        0
    } else {
        sum_byte_lens(paths.drop_last()) + (byte_len(paths.last()@) as usize) as nat
    }
}

/// The size compared with the content limit: the bytes of the text, the HTML or the
/// RTF, the image's byte count, or the total bytes of the file paths.
pub open spec fn content_size_spec(c: ClipboardContent) -> nat {
    match c {
        ClipboardContent::Text(t) => (byte_len(t@) as usize) as nat,
        ClipboardContent::Html { html, .. } => (byte_len(html@) as usize) as nat,
        ClipboardContent::Rtf { rtf, .. } => (byte_len(rtf@) as usize) as nat,
        ClipboardContent::ImageFile(cap) => cap.byte_size as nat,
        ClipboardContent::Files(f) => sum_byte_lens(f.paths@),
    }
}

/// The size of the content (see `content_size_spec`).
pub fn content_size(content: &ClipboardContent) -> (n: usize)
    requires
        content_size_spec(*content) <= usize::MAX,
    ensures
        n == content_size_spec(*content),
{
    match content {
        ClipboardContent::Text(t) => byte_len_of(t.as_str()),
        ClipboardContent::Html { html, .. } => byte_len_of(html.as_str()),
        ClipboardContent::Rtf { rtf, .. } => byte_len_of(rtf.as_str()),
        ClipboardContent::ImageFile(cap) => cap.byte_size,
        ClipboardContent::Files(f) => {
            let mut total: usize = 0;
            let mut i: usize = 0;
            while i < f.paths.len()
                invariant
                    i <= f.paths@.len(),
                    total == sum_byte_lens(f.paths@.take(i as int)),
                    sum_byte_lens(f.paths@) <= usize::MAX,
                decreases f.paths.len() - i,
            {
                assert(f.paths@.take(i + 1).drop_last() =~= f.paths@.take(i as int));
                proof {
                    lemma_sum_byte_lens_prefix(f.paths@, i + 1);
                }
                total = total + byte_len_of(f.paths[i].as_str());
                i += 1;
            }
            assert(f.paths@.take(i as int) =~= f.paths@);
            total
        },
    }
}

proof fn lemma_sum_byte_lens_prefix(s: Seq<String>, k: int)
    requires
        0 <= k <= s.len(),
    ensures
        sum_byte_lens(s.take(k)) <= sum_byte_lens(s),
    decreases s.len() - k,
{
    if k < s.len() {
        lemma_sum_byte_lens_prefix(s, k + 1);
        assert(s.take(k + 1).drop_last() =~= s.take(k));
    } else {
        assert(s.take(k) =~= s);
    }
}

// ------------------------------------------------------------------ settings

/// The settings that govern how captured content is stored.
#[derive(Debug, Clone)]
pub struct ProcessSettings {
    /// Text-like content above this many bytes is skipped (0: no limit).
    pub max_content_size: usize,
    /// `always_new`, `ignore` or `move_to_top`.
    pub dedup_strategy: String,
    /// `strict` compares exact content; anything else compares normalised text.
    pub text_dedup_mode: String,
    /// Items beyond this count are removed (0: no limit).
    pub max_history_count: i64,
    /// Items older than this many days are removed (0: never).
    pub auto_cleanup_days: i64,
}

pub open spec fn opt_text(s: Option<&str>) -> Option<Seq<char>> {
    match s {
        Some(t) => Some(t@),
        None => None,
    }
}

/// The content limit a setting in kilobytes gives.
pub open spec fn max_content_size_spec(kb: Option<Seq<char>>) -> nat {
    match kb {
        Some(t) => match parse_usize_spec(t) {
            Some(v) => (v * 1024) as nat,
            None => DEFAULT_MAX_CONTENT_SIZE as nat,
        },
        None => DEFAULT_MAX_CONTENT_SIZE as nat,
    }
}

/// An `i64` setting, or its default when absent or not a number.
pub open spec fn i64_setting(v: Option<Seq<char>>, default: i64) -> i64 {
    match v {
        Some(t) => match parse_i64_spec(t) {
            Some(n) => n,
            None => default,
        },
        None => default,
    }
}

/// A text setting, or its default when absent.
pub open spec fn text_setting(v: Option<Seq<char>>, default: Seq<char>) -> Seq<char> {
    match v {
        Some(t) => t,
        None => default,
    }
}

fn text_or(v: Option<&str>, default: &str) -> (s: String)
    ensures
        s@ == text_setting(opt_text(v), default@),
{
    match v {
        Some(t) => t.to_owned(),
        None => default.to_owned(),
    }
}

fn i64_or(v: Option<&str>, default: i64) -> (n: i64)
    ensures
        n == i64_setting(opt_text(v), default),
{
    match v {
        Some(t) => match parse_i64(t) {
            Some(n) => n,
            None => default,
        },
        None => default,
    }
}

impl ProcessSettings {
    /// The settings from their stored values (each absent when not set): sizes in
    /// kilobytes; numbers that do not parse give the defaults.
    pub fn from_values(
        max_content_size_kb: Option<&str>,
        dedup_strategy: Option<&str>,
        text_dedup_mode: Option<&str>,
        max_history_count: Option<&str>,
        auto_cleanup_days: Option<&str>,
    ) -> (s: Self)
        requires
            max_content_size_spec(opt_text(max_content_size_kb)) <= usize::MAX,
        ensures
            s.max_content_size == max_content_size_spec(opt_text(max_content_size_kb)),
            s.dedup_strategy@ == text_setting(opt_text(dedup_strategy), "move_to_top"@),
            s.text_dedup_mode@ == text_setting(opt_text(text_dedup_mode), "semantic"@),
            s.max_history_count == i64_setting(
                opt_text(max_history_count),
                DEFAULT_MAX_HISTORY_COUNT,
            ),
            s.auto_cleanup_days == i64_setting(
                opt_text(auto_cleanup_days),
                DEFAULT_AUTO_CLEANUP_DAYS,
            ),
    {
        let max_content_size = match max_content_size_kb {
            Some(t) => match parse_usize(t) {
                Some(kb) => kb * 1024,
                None => DEFAULT_MAX_CONTENT_SIZE,
            },
            None => DEFAULT_MAX_CONTENT_SIZE,
        };
        ProcessSettings {
            max_content_size,
            dedup_strategy: text_or(dedup_strategy, "move_to_top"),
            text_dedup_mode: text_or(text_dedup_mode, "semantic"),
            max_history_count: i64_or(max_history_count, DEFAULT_MAX_HISTORY_COUNT),
            auto_cleanup_days: i64_or(auto_cleanup_days, DEFAULT_AUTO_CLEANUP_DAYS),
        }
    }

    /// Text-like content is skipped when a limit is set and its size is above it.
    pub fn exceeds_content_limit(&self, content: &ClipboardContent) -> (b: bool)
        ensures
            b == (self.max_content_size > 0 && is_text_like_content(*content) && content_size_spec(
                *content,
            ) > self.max_content_size),
    {
        if self.max_content_size > 0 && is_text_like(content) {
            content_size(content) > self.max_content_size
        } else {
            false
        }
    }

    /// Whether repeats are looked for at all (not with `always_new`).
    pub fn deduplicates(&self) -> (b: bool)
        ensures
            b == (self.dedup_strategy@ != "always_new"@),
    {
        let s = chars_of(self.dedup_strategy.as_str());
        let a = chars_of("always_new");
        !chars_eq(s.as_slice(), a.as_slice())
    }

    /// The stored hash that finds a repeat: the normalised-text hash for text-like
    /// content unless the text mode is `strict`, the content hash otherwise; none when
    /// repeats are not looked for.
    pub fn duplicate_lookup(&self, text_like: bool) -> (r: Option<HashColumn>)
        ensures
            r == if self.dedup_strategy@ == "always_new"@ {
                None
            } else if text_like && self.text_dedup_mode@ != "strict"@ {
                Some(HashColumn::Semantic)
            } else {
                Some(HashColumn::Content)
            },
    {
        if !self.deduplicates() {
            return None;
        }
        let m = chars_of(self.text_dedup_mode.as_str());
        let strict = chars_of("strict");
        if text_like && !chars_eq(m.as_slice(), strict.as_slice()) {
            Some(HashColumn::Semantic)
        } else {
            Some(HashColumn::Content)
        }
    }

    /// What is done with content that is already stored: `ignore` leaves the history
    /// alone; anything else moves the stored item to the top.
    pub fn on_duplicate(&self) -> (a: DuplicateAction)
        ensures
            a == if self.dedup_strategy@ == "ignore"@ {
                DuplicateAction::Ignore
            } else {
                DuplicateAction::MoveToTop
            },
    {
        let s = chars_of(self.dedup_strategy.as_str());
        let i = chars_of("ignore");
        if chars_eq(s.as_slice(), i.as_slice()) {
            DuplicateAction::Ignore
        } else {
            DuplicateAction::MoveToTop
        }
    }

    /// Whether old items are trimmed to a maximum count after storing.
    pub fn limits_history(&self) -> (b: bool)
        ensures
            b == (self.max_history_count > 0),
    {
        self.max_history_count > 0
    }

    /// Whether items older than a number of days are removed after storing.
    pub fn cleans_up_old_items(&self) -> (b: bool)
        ensures
            b == (self.auto_cleanup_days > 0),
    {
        self.auto_cleanup_days > 0
    }
}

/// What becomes of content that is already stored.
#[derive(Debug, Clone, Copy, PartialEq, Eq, Structural)]
pub enum DuplicateAction {
    Ignore,
    MoveToTop,
}

// ------------------------------------------------------------------ repeats in a row

/// The database and content hash of the last content stored, which a capture of the
/// same content into the same database right after it repeats.
#[derive(Debug, Clone, PartialEq, Eq)]
pub struct LastCapture {
    pub db_path: String,
    pub content_hash: String,
}

/// The memory of the last capture after one more: whether this capture is skipped as
/// a repeat, and what is remembered next. Nothing changes with `always_new`; a repeat
/// of the remembered capture is skipped; anything else is remembered.
pub fn note_capture(
    settings: &ProcessSettings,
    last: Option<LastCapture>,
    db_path: &str,
    content_hash: &str,
) -> (r: (bool, Option<LastCapture>))
    ensures
        settings.dedup_strategy@ == "always_new"@ ==> !r.0 && r.1 == last,
        settings.dedup_strategy@ != "always_new"@ ==> match last {
            Some(l) => if l.db_path@ == db_path@ && l.content_hash@ == content_hash@ {
                r.0 && r.1 == Some(l)
            } else {
                !r.0 && (r.1 matches Some(n) && n.db_path@ == db_path@ && n.content_hash@
                    == content_hash@)
            },
            None => !r.0 && (r.1 matches Some(n) && n.db_path@ == db_path@ && n.content_hash@
                == content_hash@),
        },
{
    if !settings.deduplicates() {
        return (false, last);
    }
    let repeat = match &last {
        Some(l) => {
            let a = chars_of(l.db_path.as_str());
            let b = chars_of(db_path);
            let c = chars_of(l.content_hash.as_str());
            let d = chars_of(content_hash);
            chars_eq(a.as_slice(), b.as_slice()) && chars_eq(c.as_slice(), d.as_slice())
        },
        None => false,
    };
    if repeat {
        (true, last)
    } else {
        (false, Some(LastCapture { db_path: db_path.to_owned(), content_hash: content_hash.to_owned() }))
    }
}

// ------------------------------------------------------------------ monitored types

/// The name under which the content's type is monitored; `url` for text that is a
/// link (as the caller found it).
pub open spec fn monitored_name(c: ClipboardContent, text_is_url: bool) -> Seq<char> {
    match c {
        ClipboardContent::Text(_) => if text_is_url {
            "url"@
        } else {
            "text"@
        },
        ClipboardContent::Html { .. } => "html"@,
        ClipboardContent::Rtf { .. } => "rtf"@,
        ClipboardContent::ImageFile(_) => "image"@,
        ClipboardContent::Files(_) => "files"@,
    }
}

/// Some comma-separated entry of `list`, trimmed, is `name`.
pub open spec fn list_names(list: Seq<char>, name: Seq<char>) -> bool {
    exists|i: int| 0 <= i < split_on(list, ',').len() && trim(#[trigger] split_on(list, ',')[i]) == name
}

/// Whether a content type is monitored under the setting `monitor_types` (a
/// comma-separated list of type names; all types when unset or empty).
/// `text_is_url` says whether text content is a link.
pub fn is_content_type_allowed(
    monitor_types: Option<&str>,
    content: &ClipboardContent,
    text_is_url: bool,
) -> (b: bool)
    ensures
        b == match monitor_types {
            Some(l) => l@.len() == 0 || list_names(l@, monitored_name(*content, text_is_url)),
            None => true,
        },
{
    let list = match monitor_types {
        Some(l) => l,
        None => return true,
    };
    if list.is_empty() {
        return true;
    }
    let name: &str = match content {
        ClipboardContent::Text(_) => if text_is_url {
            "url"
        } else {
            "text"
        },
        ClipboardContent::Html { .. } => "html",
        ClipboardContent::Rtf { .. } => "rtf",
        ClipboardContent::ImageFile(_) => "image",
        ClipboardContent::Files(_) => "files",
    };
    let want = chars_of(name);
    let lc = chars_of(list);
    let parts = split_chars(lc.as_slice(), ',');
    let mut i: usize = 0;
    while i < parts.len()
        invariant
            i <= parts@.len(),
            lc@ == list@,
            opt_text(monitor_types) == Some(list@),
            list@.len() > 0,
            want@ == monitored_name(*content, text_is_url),
            crate::text::char_views(parts@) == split_on(list@, ','),
            forall|j: int| 0 <= j < i ==> trim(#[trigger] split_on(list@, ',')[j]) != want@,
        decreases parts.len() - i,
    {
        let t = trim_chars(parts[i].as_slice());
        assert(split_on(list@, ',')[i as int] == parts@[i as int]@);
        if chars_eq(t.as_slice(), want.as_slice()) {
            assert(trim(split_on(list@, ',')[i as int]) == monitored_name(*content, text_is_url));
            return true;
        }
        i += 1;
    }
    false
}

// ------------------------------------------------------------------ hashes

pub open spec fn utf8(s: Seq<char>) -> Seq<u8> {
    vstd::utf8::encode_utf8(s)
}

/// The bytes of the file paths, each followed by `|`.
pub open spec fn paths_hash_input(paths: Seq<String>) -> Seq<u8>
    decreases paths.len(),
{
    if paths.len() == 0 {
        seq![]
    } else {
        paths_hash_input(paths.drop_last()) + utf8(paths.last()@) + seq![124u8]
    }
}

/// What the content hash is computed from: a tag naming the kind of content, then
/// its bytes. Text that is a link (the caller gives its canonical form) is hashed as
/// that link. Images are hashed from their file, which the caller reads.
pub open spec fn content_hash_input(c: ClipboardContent, canonical_url: Option<Seq<char>>) -> Option<
    Seq<u8>,
> {
    match c {
        ClipboardContent::Text(t) => Some(
            match canonical_url {
                Some(u) => utf8("url:"@) + utf8(u),
                None => utf8("text:"@) + utf8(t@),
            },
        ),
        ClipboardContent::Html { html, .. } => Some(utf8("html:"@) + utf8(html@)),
        ClipboardContent::Rtf { rtf, .. } => Some(utf8("rtf:"@) + utf8(rtf@)),
        ClipboardContent::ImageFile(_) => None,
        ClipboardContent::Files(f) => Some(
            utf8("files:"@) + paths_hash_input(f.paths@) + match f.hdrop_raw {
                Some(raw) => utf8("hdrop:"@) + raw@,
                None => seq![],
            },
        ),
    }
}

fn push_bytes(out: &mut Vec<u8>, bytes: &[u8])
    ensures
        final(out)@ == old(out)@ + bytes@,
{
    let ghost base = out@;
    let mut i: usize = 0;
    while i < bytes.len()
        invariant
            i <= bytes@.len(),
            out@ == base + bytes@.take(i as int),
        decreases bytes.len() - i,
    {
        out.push(bytes[i]);
        i += 1;
        assert(out@ =~= base + bytes@.take(i as int));
    }
    assert(bytes@.take(i as int) =~= bytes@);
}

/// The content hash (lowercase hex BLAKE3) of text, HTML, RTF or files; none for an
/// image, whose hash comes from its file (`image_content_hash`).
pub fn content_hash(content: &ClipboardContent, canonical_url: Option<&str>) -> (h: Option<String>)
    ensures
        match content_hash_input(*content, opt_text(canonical_url)) {
            Some(input) => h is Some && h->0@ == crate::hashing::blake3_hex_digest(input),
            None => h is None,
        },
{
    let mut input: Vec<u8> = Vec::new();
    match content {
        ClipboardContent::Text(t) => match canonical_url {
            Some(u) => {
                push_bytes(&mut input, "url:".as_bytes());
                push_bytes(&mut input, u.as_bytes());
                assert(input@ =~= utf8("url:"@) + utf8(u@));
            },
            None => {
                push_bytes(&mut input, "text:".as_bytes());
                push_bytes(&mut input, t.as_str().as_bytes());
                assert(input@ =~= utf8("text:"@) + utf8(t@));
            },
        },
        ClipboardContent::Html { html, .. } => {
            push_bytes(&mut input, "html:".as_bytes());
            push_bytes(&mut input, html.as_str().as_bytes());
            assert(input@ =~= utf8("html:"@) + utf8(html@));
        },
        ClipboardContent::Rtf { rtf, .. } => {
            push_bytes(&mut input, "rtf:".as_bytes());
            push_bytes(&mut input, rtf.as_str().as_bytes());
            assert(input@ =~= utf8("rtf:"@) + utf8(rtf@));
        },
        ClipboardContent::ImageFile(_) => {
            return None;
        },
        ClipboardContent::Files(f) => {
            push_bytes(&mut input, "files:".as_bytes());
            let ghost head = input@;
            let mut i: usize = 0;
            while i < f.paths.len()
                invariant
                    i <= f.paths@.len(),
                    input@ == head + paths_hash_input(f.paths@.take(i as int)),
                decreases f.paths.len() - i,
            {
                assert(f.paths@.take(i + 1).drop_last() =~= f.paths@.take(i as int));
                push_bytes(&mut input, f.paths[i].as_str().as_bytes());
                push_bytes(&mut input, &[124u8]);
                assert(input@ =~= head + paths_hash_input(f.paths@.take(i + 1)));
                i += 1;
            }
            assert(f.paths@.take(i as int) =~= f.paths@);
            match &f.hdrop_raw {
                Some(raw) => {
                    push_bytes(&mut input, "hdrop:".as_bytes());
                    push_bytes(&mut input, raw.as_slice());
                    assert(input@ =~= utf8("files:"@) + paths_hash_input(f.paths@) + (utf8(
                        "hdrop:"@,
                    ) + raw@));
                },
                None => {
                    assert(input@ =~= utf8("files:"@) + paths_hash_input(f.paths@) + seq![]);
                },
            }
        },
    }
    Some(crate::hashing::blake3_hex(input.as_slice()))
}

/// The content hash of an image from the bytes of its file.
pub fn image_content_hash(file_bytes: &[u8]) -> (h: String)
    ensures
        h@ == crate::hashing::blake3_hex_digest(utf8("image:"@) + file_bytes@),
{
    let mut input: Vec<u8> = Vec::new();
    push_bytes(&mut input, "image:".as_bytes());
    push_bytes(&mut input, file_bytes);
    crate::hashing::blake3_hex(input.as_slice())
}

/// The hash that finds repeats of the same text in another form: for text, the hash
/// of its normalised form (the content hash for a link or for text that normalises
/// to nothing); for HTML and RTF, that of their text; the content hash for images and
/// files.
pub open spec fn semantic_hash_for_spec(
    c: ClipboardContent,
    content_hash: Seq<char>,
    text_is_url: bool,
) -> Seq<char> {
    match c {
        ClipboardContent::Text(t) => if text_is_url {
            content_hash
        } else {
            match crate::dedup::semantic_hash_spec(t@) {
                Some(h) => h,
                None => content_hash,
            }
        },
        ClipboardContent::Html { text, .. } => crate::dedup::compute_semantic_hash_spec(
            "html"@,
            opt_view(text),
            content_hash,
        ),
        ClipboardContent::Rtf { text, .. } => crate::dedup::compute_semantic_hash_spec(
            "rtf"@,
            opt_view(text),
            content_hash,
        ),
        _ => content_hash,
    }
}

fn opt_as_str(s: &Option<String>) -> (r: Option<&str>)
    ensures
        opt_text(r) == opt_view(*s),
{
    match s {
        Some(t) => Some(t.as_str()),
        None => None,
    }
}

/// The semantic hash of captured content (see `semantic_hash_for_spec`); text is
/// checked for being a link.
pub fn semantic_hash_for(content: &ClipboardContent, content_hash: &str) -> (h: String)
    ensures
        h@ == semantic_hash_for_spec(
            *content,
            content_hash@,
            match content {
                ClipboardContent::Text(t) => crate::dedup::is_url_spec(t@),
                _ => false,
            },
        ),
{
    match content {
        ClipboardContent::Text(t) => {
            if crate::dedup::is_url(t.as_str()) {
                content_hash.to_owned()
            } else {
                match crate::dedup::semantic_hash_from_text(t.as_str()) {
                    Some(h) => h,
                    None => content_hash.to_owned(),
                }
            }
        },
        ClipboardContent::Html { text, .. } => crate::dedup::compute_semantic_hash(
            "html",
            opt_as_str(text),
            content_hash,
        ),
        ClipboardContent::Rtf { text, .. } => crate::dedup::compute_semantic_hash(
            "rtf",
            opt_as_str(text),
            content_hash,
        ),
        _ => content_hash.to_owned(),
    }
}

// ------------------------------------------------------------------ stored records

/// The two hashes of captured content.
#[derive(Debug, Clone, PartialEq, Eq)]
pub struct ContentHashes {
    pub content_hash: String,
    pub semantic_hash: String,
}

pub open spec fn opt_view(s: Option<String>) -> Option<Seq<char>> {
    match s {
        Some(t) => Some(t@),
        None => None,
    }
}

pub open spec fn char_count_of(s: Option<String>) -> Option<i64> {
    match s {
        Some(t) => Some(t@.len() as i64),
        None => None,
    }
}

/// The record of a captured text: a link (as the caller found it) is stored trimmed
/// and as a URL; the text is cut to the content limit; the preview and the character
/// count are of the whole (trimmed) text.
pub fn process_text(text: String, is_url: bool, hashes: &ContentHashes, max_size: usize) -> (item:
    NewClipboardItem)
    ensures
        ({
            let t = if is_url {
                trim(text@)
            } else {
                text@
            };
            &&& item.content_type == (if is_url {
                ContentType::Url
            } else {
                ContentType::Text
            })
            &&& item.text_content is Some
            &&& item.text_content->0@ == t.take(item.text_content->0@.len() as int)
            &&& max_size == 0 ==> item.text_content->0@ == t
            &&& item.byte_size == (byte_len(item.text_content->0@) as usize) as i64
            &&& item.char_count == Some(t.len() as i64)
            &&& item.preview is Some && item.preview->0@ == preview_spec(t)
            &&& item.content_hash@ == hashes.content_hash@
            &&& item.semantic_hash@ == hashes.semantic_hash@
            &&& item.html_content is None && item.rtf_content is None
            &&& item.image_path is None && item.file_paths is None
            &&& item.source_app_name is None && item.group_id is None
        }),
{
    let text = if is_url {
        let c = chars_of(text.as_str());
        string_of(trim_chars(c.as_slice()).as_slice())
    } else {
        text
    };
    let tc = chars_of(text.as_str());
    let char_count = tc.len() as i64;
    let preview = create_preview(text.as_str());
    let content_type = if is_url {
        ContentType::Url
    } else {
        ContentType::Text
    };
    let text_content = truncate_content(text, max_size, "Text");
    let byte_size = byte_len_of(text_content.as_str()) as i64;
    let mut item = NewClipboardItem::default();
    item.content_type = content_type;
    item.text_content = Some(text_content);
    item.content_hash = hashes.content_hash.clone();
    item.semantic_hash = hashes.semantic_hash.clone();
    item.preview = Some(preview);
    item.byte_size = byte_size;
    item.char_count = Some(char_count);
    item
}

/// The record of captured HTML: the markup cut to the content limit, the RTF already
/// prepared for storage, the preview of the text (or of the markup when there is no
/// text), and the source page.
pub fn process_html(
    html: String,
    text: Option<String>,
    stored_rtf: Option<String>,
    source_url: Option<String>,
    hashes: &ContentHashes,
    max_size: usize,
) -> (item: NewClipboardItem)
    ensures
        item.content_type == ContentType::Html,
        opt_view(item.text_content) == opt_view(text),
        item.html_content is Some,
        item.html_content->0@ == html@.take(item.html_content->0@.len() as int),
        max_size == 0 ==> item.html_content->0@ == html@,
        item.byte_size == (byte_len(item.html_content->0@) as usize) as i64,
        opt_view(item.rtf_content) == opt_view(stored_rtf),
        item.preview is Some,
        item.preview->0@ == match text {
            Some(t) => preview_spec(t@),
            None => preview_spec(html@),
        },
        item.char_count == char_count_of(text),
        opt_view(item.source_url) == opt_view(source_url),
        item.content_hash@ == hashes.content_hash@,
        item.semantic_hash@ == hashes.semantic_hash@,
        item.image_path is None && item.file_paths is None,
{
    let preview = match &text {
        Some(t) => create_preview(t.as_str()),
        None => create_preview(html.as_str()),
    };
    let html_content = truncate_content(html, max_size, "HTML");
    let byte_size = byte_len_of(html_content.as_str()) as i64;
    let char_count = match &text {
        Some(t) => Some(chars_of(t.as_str()).len() as i64),
        None => None,
    };
    let mut item = NewClipboardItem::default();
    item.content_type = ContentType::Html;
    item.text_content = text;
    item.html_content = Some(html_content);
    item.rtf_content = stored_rtf;
    item.content_hash = hashes.content_hash.clone();
    item.semantic_hash = hashes.semantic_hash.clone();
    item.preview = Some(preview);
    item.byte_size = byte_size;
    item.char_count = char_count;
    item.source_url = source_url;
    item
}

/// The record of captured RTF: the RTF as prepared for storage, and the preview of
/// its text (`[RTF Content]` when it has none).
pub fn process_rtf(stored_rtf: String, text: Option<String>, hashes: &ContentHashes) -> (item:
    NewClipboardItem)
    ensures
        item.content_type == ContentType::Rtf,
        opt_view(item.text_content) == opt_view(text),
        item.rtf_content is Some && item.rtf_content->0@ == stored_rtf@,
        item.byte_size == (byte_len(stored_rtf@) as usize) as i64,
        item.preview is Some,
        item.preview->0@ == match text {
            Some(t) => preview_spec(t@),
            None => "[RTF Content]"@,
        },
        item.char_count == char_count_of(text),
        item.content_hash@ == hashes.content_hash@,
        item.semantic_hash@ == hashes.semantic_hash@,
        item.html_content is None && item.image_path is None && item.file_paths is None,
{
    let preview = match &text {
        Some(t) => create_preview(t.as_str()),
        None => "[RTF Content]".to_owned(),
    };
    let byte_size = byte_len_of(stored_rtf.as_str()) as i64;
    let char_count = match &text {
        Some(t) => Some(chars_of(t.as_str()).len() as i64),
        None => None,
    };
    let mut item = NewClipboardItem::default();
    item.content_type = ContentType::Rtf;
    item.text_content = text;
    item.rtf_content = Some(stored_rtf);
    item.content_hash = hashes.content_hash.clone();
    item.semantic_hash = hashes.semantic_hash.clone();
    item.preview = Some(preview);
    item.byte_size = byte_size;
    item.char_count = char_count;
    item
}

/// The name an image is stored under: the first 32 characters of its content hash,
/// with the given extension (`png`, or `dib` for the bitmap beside it).
pub fn image_file_name(content_hash: &str, extension: &str) -> (name: String)
    requires
        content_hash@.len() >= 32,
    ensures
        name@ == content_hash@.take(32) + seq!['.'] + extension@,
{
    let h = chars_of(content_hash);
    let mut out: Vec<char> = Vec::new();
    crate::text::push_range(&mut out, h.as_slice(), 0, 32);
    assert(out@ =~= content_hash@.take(32));
    out.push('.');
    let e = chars_of(extension);
    append_chars(&mut out, e.as_slice());
    string_of(out.as_slice())
}

/// The record of a captured image stored at `image_path`.
pub fn image_item(capture: &ImageCapture, hashes: &ContentHashes, image_path: String) -> (item:
    NewClipboardItem)
    ensures
        item.content_type == ContentType::Image,
        item.image_path is Some && item.image_path->0@ == image_path@,
        item.preview is Some && item.preview->0@ == "[图片]"@,
        item.byte_size == capture.byte_size as i64,
        item.image_width == Some(capture.width as i64),
        item.image_height == Some(capture.height as i64),
        item.content_hash@ == hashes.content_hash@,
        item.semantic_hash@ == hashes.semantic_hash@,
        item.text_content is None && item.file_paths is None,
{
    let mut item = NewClipboardItem::default();
    item.content_type = ContentType::Image;
    item.image_path = Some(image_path);
    item.content_hash = hashes.content_hash.clone();
    item.semantic_hash = hashes.semantic_hash.clone();
    item.preview = Some("[图片]".to_owned());
    item.byte_size = capture.byte_size as i64;
    item.image_width = Some(capture.width as i64);
    item.image_height = Some(capture.height as i64);
    item
}

/// The preview of a file list: the path of a single file, `[文件]` for none,
/// `<n> files` for several.
pub open spec fn files_preview_spec(paths: Seq<String>) -> Seq<char> {
    if paths.len() == 1 {
        paths[0]@
    } else if paths.len() == 0 {
        "[文件]"@
    } else {
        decimal(paths.len()) + " files"@
    }
}

/// The preview of a file list.
pub fn files_preview(paths: &Vec<String>) -> (p: String)
    ensures
        p@ == files_preview_spec(paths@),
{
    if paths.len() == 1 {
        paths[0].clone()
    } else if paths.len() == 0 {
        "[文件]".to_owned()
    } else {
        let mut out = decimal_chars(paths.len() as u64);
        let tail = chars_of(" files");
        append_chars(&mut out, tail.as_slice());
        string_of(out.as_slice())
    }
}

/// The directory name under which a file item's copies are staged: the first eight
/// characters of its content hash (all of it when shorter).
pub fn staged_dir_name(content_hash: &str) -> (name: String)
    ensures
        name@ == content_hash@.take(if content_hash@.len() < 8 {
            content_hash@.len() as int
        } else {
            8
        }),
{
    let h = chars_of(content_hash);
    let n = if h.len() < 8 {
        h.len()
    } else {
        8
    };
    let mut out: Vec<char> = Vec::new();
    crate::text::push_range(&mut out, h.as_slice(), 0, n);
    assert(out@ =~= content_hash@.take(n as int));
    string_of(out.as_slice())
}

/// The record of captured files: the paths, the serialised payload, the total size of
/// the files (as the caller measured it) and the preview.
pub fn files_item(
    capture: FileCaptureData,
    file_payload: String,
    hashes: &ContentHashes,
    byte_size: i64,
) -> (item: NewClipboardItem)
    ensures
        item.content_type == ContentType::Files,
        item.file_paths is Some && item.file_paths->0@ == capture.paths@,
        item.file_payload is Some && item.file_payload->0@ == file_payload@,
        item.preview is Some && item.preview->0@ == files_preview_spec(capture.paths@),
        item.byte_size == byte_size,
        item.content_hash@ == hashes.content_hash@,
        item.semantic_hash@ == hashes.semantic_hash@,
        item.text_content is None && item.image_path is None,
{
    let preview = files_preview(&capture.paths);
    let mut item = NewClipboardItem::default();
    item.content_type = ContentType::Files;
    item.file_paths = Some(capture.paths);
    item.file_payload = Some(file_payload);
    item.content_hash = hashes.content_hash.clone();
    item.semantic_hash = hashes.semantic_hash.clone();
    item.preview = Some(preview);
    item.byte_size = byte_size;
    item
}

} // verus!
