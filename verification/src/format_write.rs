//! Writing a stored item back to the clipboard: which formats it is written in, and
//! its plain-text forms, used when it is written as text or pasted as plain text.
use vstd::prelude::*;
use crate::database::ClipboardItem;
use crate::file_clipboard::{json_string_array, json_string_list};
use crate::merge_paste::{join_strings, join_with};
use crate::text::{append_chars, chars_eq, chars_of, is_white_space, string_of, string_views};

verus! {

/// Whether the characters after `s` are inside a tag: the last `<` or `>` in `s`
/// decides.
pub open spec fn inside_tag_after(s: Seq<char>) -> bool
    decreases s.len(),
{
    if s.len() == 0 {
        false
    } else if s.last() == '<' {
        true
    } else if s.last() == '>' {
        false
    } else {
        inside_tag_after(s.drop_last())
    }
}

/// The characters of `s` outside tags; `<` and `>` themselves are dropped.
pub open spec fn untagged(s: Seq<char>) -> Seq<char>
    decreases s.len(),
{
    if s.len() == 0 {
        seq![]
    } else {
        let u = untagged(s.drop_last());
        let c = s.last();
        if c == '<' || c == '>' || inside_tag_after(s.drop_last()) {
            u
        } else {
            u.push(c)
        }
    }
}

/// The pieces of `s` between whitespace characters (empty pieces included).
pub open spec fn ws_pieces(s: Seq<char>) -> Seq<Seq<char>>
    decreases s.len(),
{
    if s.len() == 0 {
        seq![seq![]]
    } else {
        let p = ws_pieces(s.drop_last());
        if is_white_space(s.last()) {
            p.push(seq![])
        } else {
            p.update(p.len() - 1, p.last().push(s.last()))
        }
    }
}

/// The words of `s`: its maximal runs of non-whitespace characters.
pub open spec fn words(s: Seq<char>) -> Seq<Seq<char>> {
    ws_pieces(s).filter(|p: Seq<char>| p.len() > 0)
}

/// `ws` joined with single spaces.
pub open spec fn join_spaces(ws: Seq<Seq<char>>) -> Seq<char>
    decreases ws.len(),
{
    if ws.len() == 0 {
        seq![]
    } else if ws.len() == 1 {
        ws[0]
    } else {
        join_spaces(ws.drop_last()) + seq![' '] + ws.last()
    }
}

/// The text of an HTML fragment: tags removed, whitespace runs collapsed to single
/// spaces, none at either end.
pub open spec fn strip_html_spec(html: Seq<char>) -> Seq<char> {
    join_spaces(words(untagged(html)))
}

/// The text of an HTML fragment: tags removed, whitespace runs collapsed to single
/// spaces, none at either end.
pub fn strip_html_tags(html: &str) -> (out: String)
    ensures
        out@ == strip_html_spec(html@),
{
    let s = chars_of(html);
    let mut kept: Vec<char> = Vec::new();
    let mut in_tag = false;
    let mut i: usize = 0;
    while i < s.len()
        invariant
            i <= s@.len(),
            kept@ == untagged(s@.take(i as int)),
            in_tag == inside_tag_after(s@.take(i as int)),
        decreases s.len() - i,
    {
        let c = s[i];
        assert(s@.take(i + 1).drop_last() =~= s@.take(i as int));
        assert(s@.take(i + 1).last() == c);
        if c == '<' {
            in_tag = true;
        } else if c == '>' {
            in_tag = false;
        } else if !in_tag {
            kept.push(c);
        }
        i += 1;
    }
    assert(s@.take(i as int) =~= s@);
    // collapse whitespace
    let ghost u = kept@;
    let mut out: Vec<char> = Vec::new();
    let mut cur: Vec<char> = Vec::new();
    let ghost mut done: Seq<Seq<char>> = seq![];
    let mut j: usize = 0;
    assert(u.take(0) =~= seq![]);
    while j < kept.len()
        invariant
            j <= kept@.len(),
            u == kept@,
            ws_pieces(u.take(j as int)) == done.push(cur@),
            out@ == join_spaces(done.filter(|p: Seq<char>| p.len() > 0)),
        decreases kept.len() - j,
    {
        let c = kept[j];
        assert(u.take(j + 1).drop_last() =~= u.take(j as int));
        assert(u.take(j + 1).last() == c);
        if is_ws(c) {
            let ghost finished = cur@;
            proof {
                reveal(Seq::filter);
                assert(done.push(finished).drop_last() =~= done);
            }
            if cur.len() > 0 {
                let ghost before = done.filter(|p: Seq<char>| p.len() > 0);
                if out.len() > 0 {
                    out.push(' ');
                }
                append_chars(&mut out, cur.as_slice());
                proof {
                    lemma_join_spaces_push(before, finished);
                }
            }
            cur = Vec::new();
            proof {
                done = done.push(finished);
            }
            assert(ws_pieces(u.take(j + 1)) =~= done.push(cur@));
        } else {
            cur.push(c);
            assert(ws_pieces(u.take(j + 1)) =~= done.push(cur@));
        }
        j += 1;
    }
    assert(u.take(j as int) =~= u);
    let ghost finished = cur@;
    proof {
        reveal(Seq::filter);
        assert(done.push(finished).drop_last() =~= done);
    }
    if cur.len() > 0 {
        let ghost before = done.filter(|p: Seq<char>| p.len() > 0);
        if out.len() > 0 {
            out.push(' ');
        }
        append_chars(&mut out, cur.as_slice());
        proof {
            lemma_join_spaces_push(before, finished);
        }
    }
    string_of(out.as_slice())
}

fn is_ws(c: char) -> (b: bool)
    ensures
        b == is_white_space(c),
{
    crate::text::is_white_space_char(c)
}

/// Joining one more non-empty word adds a space before it unless it is the first.
proof fn lemma_join_spaces_push(ws: Seq<Seq<char>>, w: Seq<char>)
    requires
        w.len() > 0,
        forall|i: int| 0 <= i < ws.len() ==> (#[trigger] ws[i]).len() > 0,
    ensures
        join_spaces(ws.push(w)) == if join_spaces(ws).len() > 0 {
            join_spaces(ws) + seq![' '] + w
        } else {
            join_spaces(ws) + w
        },
        join_spaces(ws.push(w)).len() > 0,
{
    assert(ws.push(w).drop_last() =~= ws);
    lemma_join_spaces_empty(ws);
    if ws.len() == 0 {
        assert(ws.push(w)[0] == w);
        assert(join_spaces(ws) + w =~= w);
    }
}

proof fn lemma_join_spaces_empty(ws: Seq<Seq<char>>)
    requires
        forall|i: int| 0 <= i < ws.len() ==> (#[trigger] ws[i]).len() > 0,
    ensures
        join_spaces(ws).len() == 0 <==> ws.len() == 0,
    decreases ws.len(),
{
    if ws.len() > 1 {
        lemma_join_spaces_empty(ws.drop_last());
    } else if ws.len() == 1 {
        assert(ws[0].len() > 0);
    }
}

// ------------------------------------------------------------------ item texts

pub open spec fn opt_nonempty(s: Option<String>) -> Option<Seq<char>> {
    match s {
        Some(t) => if t@.len() > 0 {
            Some(t@)
        } else {
            None
        },
        None => None,
    }
}

/// The plain-text companion of an item: its text; else the text of its HTML; else its
/// preview, unless that is a placeholder in brackets.
pub open spec fn alt_text_spec(item: ClipboardItem) -> Option<Seq<char>> {
    match opt_nonempty(item.text_content) {
        Some(t) => Some(t),
        None => {
            let from_html = match item.html_content {
                Some(h) => if strip_html_spec(h@).len() > 0 {
                    Some(strip_html_spec(h@))
                } else {
                    None
                },
                None => None,
            };
            match from_html {
                Some(t) => Some(t),
                None => match item.preview {
                    Some(p) => if p@.len() > 0 && p@[0] != '[' {
                        Some(p@)
                    } else {
                        None
                    },
                    None => None,
                },
            }
        },
    }
}

/// The plain-text companion of an item (see `alt_text_spec`).
pub fn item_alt_text(item: &ClipboardItem) -> (r: Option<String>)
    ensures
        match r {
            Some(s) => alt_text_spec(*item) == Some(s@),
            None => alt_text_spec(*item) is None,
        },
{
    if let Some(t) = &item.text_content {
        if !t.as_str().is_empty() {
            return Some(t.clone());
        }
    }
    if let Some(h) = &item.html_content {
        let stripped = strip_html_tags(h.as_str());
        if !stripped.as_str().is_empty() {
            return Some(stripped);
        }
    }
    if let Some(p) = &item.preview {
        let pc = chars_of(p.as_str());
        if pc.len() > 0 && pc[0] != '[' {
            return Some(p.clone());
        }
    }
    None
}

pub open spec fn no_text_message() -> Seq<char> {
    "Item has no text content"@
}

/// The message for an item type with no plain-text form.
pub open spec fn no_plain_text_message(content_type: Seq<char>) -> Seq<char> {
    "Item type "@ + content_type + " has no plain text representation"@
}

/// What pasting an item as plain text gives: its text; for HTML the text of the
/// markup; for RTF its plain-text companion; an error otherwise.
pub open spec fn plain_text_spec(item: ClipboardItem) -> Result<Seq<char>, Seq<char>> {
    match opt_nonempty(item.text_content) {
        Some(t) => Ok(t),
        None => {
            let ct = item.content_type@;
            if ct == "html"@ {
                match item.html_content {
                    Some(h) => if strip_html_spec(h@).len() > 0 {
                        Ok(strip_html_spec(h@))
                    } else {
                        Err(no_text_message())
                    },
                    None => Err(no_text_message()),
                }
            } else if ct == "rtf"@ {
                match alt_text_spec(item) {
                    Some(t) => Ok(t),
                    None => Err(no_text_message()),
                }
            } else if ct == "text"@ || ct == "url"@ {
                Err(no_text_message())
            } else {
                Err(no_plain_text_message(ct))
            }
        },
    }
}

fn same_text(a: &str, b: &str) -> (r: bool)
    ensures
        r == (a@ == b@),
{
    let x = chars_of(a);
    let y = chars_of(b);
    chars_eq(x.as_slice(), y.as_slice())
}

fn text_of(s: &str) -> (r: String)
    ensures
        r@ == s@,
{
    s.to_owned()
}

/// The text that pasting an item as plain text writes (see `plain_text_spec`).
pub fn item_plain_text(item: &ClipboardItem) -> (r: Result<String, String>)
    ensures
        match r {
            Ok(s) => plain_text_spec(*item) == Ok::<Seq<char>, Seq<char>>(s@),
            Err(e) => plain_text_spec(*item) == Err::<Seq<char>, Seq<char>>(e@),
        },
{
    if let Some(t) = &item.text_content {
        if !t.as_str().is_empty() {
            return Ok(t.clone());
        }
    }
    let ct = item.content_type.as_str();
    if same_text(ct, "html") {
        match &item.html_content {
            Some(h) => {
                let stripped = strip_html_tags(h.as_str());
                if !stripped.as_str().is_empty() {
                    Ok(stripped)
                } else {
                    Err(text_of("Item has no text content"))
                }
            },
            None => Err(text_of("Item has no text content")),
        }
    } else if same_text(ct, "rtf") {
        match item_alt_text(item) {
            Some(t) => Ok(t),
            None => Err(text_of("Item has no text content")),
        }
    } else if same_text(ct, "text") || same_text(ct, "url") {
        Err(text_of("Item has no text content"))
    } else {
        let mut m = chars_of("Item type ");
        let c = chars_of(ct);
        append_chars(&mut m, c.as_slice());
        let tail = chars_of(" has no plain text representation");
        append_chars(&mut m, tail.as_slice());
        Err(string_of(m.as_slice()))
    }
}

// ------------------------------------------------------------------ writing an item

/// How an item is written to the clipboard.
#[derive(Debug, Clone, PartialEq, Eq)]
pub enum ClipboardWrite {
    /// As plain text.
    Text(String),
    /// As rich text: its text, markup and RTF together (see `rich_attempts`).
    Rich,
    /// As the image stored at this path.
    Image(String),
    /// As these files.
    Files(Vec<String>),
}

/// Whether an item has markup or RTF to write.
pub open spec fn has_rich(item: ClipboardItem) -> bool {
    opt_nonempty(item.html_content) is Some || opt_nonempty(item.rtf_content) is Some
}

/// How an item is written, or why it cannot be: text and links as their text; HTML
/// and RTF as rich text when they have markup or RTF, else as text; images by their
/// path; files by their stored path list.
pub open spec fn write_spec(item: ClipboardItem) -> Result<ClipboardWriteView, Seq<char>> {
    let ct = item.content_type@;
    if ct == "text"@ || ct == "url"@ || ((ct == "html"@ || ct == "rtf"@) && !has_rich(item)) {
        match opt_nonempty(item.text_content) {
            Some(t) => Ok(ClipboardWriteView::Text(t)),
            None => Err(no_text_message()),
        }
    } else if ct == "html"@ || ct == "rtf"@ {
        Ok(ClipboardWriteView::Rich)
    } else if ct == "image"@ {
        match item.image_path {
            Some(p) => Ok(ClipboardWriteView::Image(p@)),
            None => Err("Item has no image path"@),
        }
    } else if ct == "files"@ {
        match item.file_paths {
            Some(raw) => match json_string_array(raw@) {
                Ok(paths) => Ok(ClipboardWriteView::Files(paths)),
                Err(e) => Err("Failed to parse file paths: "@ + e),
            },
            None => Err("Item has no file paths"@),
        }
    } else {
        Err("Unsupported content type: "@ + ct)
    }
}

/// A way of writing, as plain text.
pub enum ClipboardWriteView {
    Text(Seq<char>),
    Rich,
    Image(Seq<char>),
    Files(Seq<Seq<char>>),
}

impl View for ClipboardWrite {
    type V = ClipboardWriteView;

    open spec fn view(&self) -> ClipboardWriteView {
        match self {
            ClipboardWrite::Text(t) => ClipboardWriteView::Text(t@),
            ClipboardWrite::Rich => ClipboardWriteView::Rich,
            ClipboardWrite::Image(p) => ClipboardWriteView::Image(p@),
            ClipboardWrite::Files(v) => ClipboardWriteView::Files(string_views(v@)),
        }
    }
}

fn plain_write(item: &ClipboardItem) -> (r: Result<ClipboardWrite, String>)
    ensures
        match r {
            Ok(w) => opt_nonempty(item.text_content) == Some(w@->Text_0) && w is Text,
            Err(e) => opt_nonempty(item.text_content) is None && e@ == no_text_message(),
        },
{
    match &item.text_content {
        Some(t) => if !t.as_str().is_empty() {
            Ok(ClipboardWrite::Text(t.clone()))
        } else {
            Err(text_of("Item has no text content"))
        },
        None => Err(text_of("Item has no text content")),
    }
}

fn nonempty(s: &Option<String>) -> (b: bool)
    ensures
        b == (opt_nonempty(*s) is Some),
{
    match s {
        Some(t) => !t.as_str().is_empty(),
        None => false,
    }
}

fn cat(a: &str, b: &str) -> (s: String)
    ensures
        s@ == a@ + b@,
{
    let mut m = chars_of(a);
    let c = chars_of(b);
    append_chars(&mut m, c.as_slice());
    string_of(m.as_slice())
}

/// How an item is written to the clipboard (see `write_spec`).
pub fn write_plan(item: &ClipboardItem) -> (r: Result<ClipboardWrite, String>)
    ensures
        match r {
            Ok(w) => write_spec(*item) == Ok::<ClipboardWriteView, Seq<char>>(w@),
            Err(e) => write_spec(*item) == Err::<ClipboardWriteView, Seq<char>>(e@),
        },
{
    let ct = item.content_type.as_str();
    let rich = nonempty(&item.html_content) || nonempty(&item.rtf_content);
    if same_text(ct, "text") || same_text(ct, "url") {
        plain_write(item)
    } else if same_text(ct, "html") || same_text(ct, "rtf") {
        if rich {
            Ok(ClipboardWrite::Rich)
        } else {
            plain_write(item)
        }
    } else if same_text(ct, "image") {
        match &item.image_path {
            Some(p) => Ok(ClipboardWrite::Image(p.clone())),
            None => Err(text_of("Item has no image path")),
        }
    } else if same_text(ct, "files") {
        match &item.file_paths {
            Some(raw) => match json_string_list(raw.as_str()) {
                Ok(paths) => Ok(ClipboardWrite::Files(paths)),
                Err(e) => Err(cat("Failed to parse file paths: ", e.as_str())),
            },
            None => Err(text_of("Item has no file paths")),
        }
    } else {
        Err(cat("Unsupported content type: ", ct))
    }
}

/// One format of a rich write.
#[derive(Debug, Clone, PartialEq, Eq)]
pub enum RichPiece {
    Text(String),
    Html(String),
    /// The raw RTF, under the format name `Rich Text Format`.
    Rtf(Vec<u8>),
}

/// The formats of a rich write: the plain-text companion, the markup, and (when
/// asked for and not empty) the raw RTF, each only when present.
pub open spec fn rich_pieces_spec(
    item: ClipboardItem,
    rtf_raw: Option<Seq<u8>>,
    include_rtf: bool,
) -> Seq<RichPieceView> {
    (match alt_text_spec(item) {
        Some(t) => seq![RichPieceView::Text(t)],
        None => seq![],
    }) + (match opt_nonempty(item.html_content) {
        Some(h) => seq![RichPieceView::Html(h)],
        None => seq![],
    }) + (match rtf_raw {
        Some(b) => if include_rtf && b.len() > 0 {
            seq![RichPieceView::Rtf(b)]
        } else {
            seq![]
        },
        None => seq![],
    })
}

/// A format of a rich write, as plain values.
pub enum RichPieceView {
    Text(Seq<char>),
    Html(Seq<char>),
    Rtf(Seq<u8>),
}

impl View for RichPiece {
    type V = RichPieceView;

    open spec fn view(&self) -> RichPieceView {
        match self {
            RichPiece::Text(t) => RichPieceView::Text(t@),
            RichPiece::Html(h) => RichPieceView::Html(h@),
            RichPiece::Rtf(b) => RichPieceView::Rtf(b@),
        }
    }
}

pub open spec fn piece_views(v: Seq<RichPiece>) -> Seq<RichPieceView> {
    Seq::new(v.len(), |i: int| v[i]@)
}

fn rich_pieces(item: &ClipboardItem, rtf_raw: &Option<Vec<u8>>, include_rtf: bool) -> (v: Vec<
    RichPiece,
>)
    ensures
        piece_views(v@) == rich_pieces_spec(
            *item,
            match rtf_raw {
                Some(b) => Some(b@),
                None => None,
            },
            include_rtf,
        ),
{
    let mut v: Vec<RichPiece> = Vec::new();
    let ghost a: Seq<RichPieceView> = match alt_text_spec(*item) {
        Some(t) => seq![RichPieceView::Text(t)],
        None => seq![],
    };
    let ghost h: Seq<RichPieceView> = match opt_nonempty(item.html_content) {
        Some(x) => seq![RichPieceView::Html(x)],
        None => seq![],
    };
    match item_alt_text(item) {
        Some(t) => v.push(RichPiece::Text(t)),
        None => {},
    }
    assert(piece_views(v@) =~= a);
    match &item.html_content {
        Some(x) => if !x.as_str().is_empty() {
            v.push(RichPiece::Html(x.clone()));
        },
        None => {},
    }
    assert(piece_views(v@) =~= a + h);
    match rtf_raw {
        Some(b) => if include_rtf && b.len() > 0 {
            v.push(RichPiece::Rtf(b.clone()));
        },
        None => {},
    }
    assert(piece_views(v@) =~= rich_pieces_spec(
        *item,
        match rtf_raw {
            Some(b) => Some(b@),
            None => None,
        },
        include_rtf,
    ));
    v
}

/// What a rich write tries, in order: the formats with the RTF, then without it
/// (each only when it is not empty), then the plain-text companion alone.
/// `rtf_raw` is the item's RTF as it goes to the clipboard, if it is written at all.
/// The first attempt the clipboard takes ends the write; when none is taken, the
/// write fails.
pub fn rich_attempts(item: &ClipboardItem, rtf_raw: &Option<Vec<u8>>) -> (r: (
    Vec<Vec<RichPiece>>,
    Option<String>,
))
    ensures
        ({
            let raw = match rtf_raw {
                Some(b) => Some(b@),
                None => None,
            };
            let with = rich_pieces_spec(*item, raw, true);
            let without = rich_pieces_spec(*item, raw, false);
            let expected = (if with.len() > 0 {
                seq![with]
            } else {
                seq![]
            }) + (if without.len() > 0 {
                seq![without]
            } else {
                seq![]
            });
            &&& r.0@.len() == expected.len()
            &&& forall|i: int| 0 <= i < expected.len() ==> piece_views(#[trigger] r.0@[i]@) == expected[i]
        }),
        match r.1 {
            Some(t) => alt_text_spec(*item) == Some(t@),
            None => alt_text_spec(*item) is None,
        },
{
    let mut out: Vec<Vec<RichPiece>> = Vec::new();
    let with = rich_pieces(item, rtf_raw, true);
    if with.len() > 0 {
        out.push(with);
    }
    let without = rich_pieces(item, rtf_raw, false);
    if without.len() > 0 {
        out.push(without);
    }
    (out, item_alt_text(item))
}

/// The name of a format in a rich write.
pub open spec fn piece_name(p: RichPieceView) -> Seq<char> {
    match p {
        RichPieceView::Text(_) => "text"@,
        RichPieceView::Html(_) => "html"@,
        RichPieceView::Rtf(_) => "Rich Text Format"@,
    }
}

/// The names of the formats of a write, joined by `+` (for the log).
pub fn rich_summary(pieces: &[RichPiece]) -> (s: String)
    ensures
        s@ == join_with(Seq::new(pieces@.len() as nat, |i: int| piece_name(pieces@[i]@)), "+"@),
{
    let mut names: Vec<String> = Vec::new();
    let mut i: usize = 0;
    while i < pieces.len()
        invariant
            i <= pieces@.len(),
            string_views(names@) == Seq::new(i as nat, |k: int| piece_name(pieces@[k]@)),
        decreases pieces.len() - i,
    {
        let n = match &pieces[i] {
            RichPiece::Text(_) => text_of("text"),
            RichPiece::Html(_) => text_of("html"),
            RichPiece::Rtf(_) => text_of("Rich Text Format"),
        };
        let ghost before = names@;
        let ghost nv = n@;
        names.push(n);
        proof {
            crate::text::lemma_string_views_push(before, names@.last());
        }
        assert(nv == piece_name(pieces@[i as int]@));
        assert(string_views(names@) =~= Seq::new((i + 1) as nat, |k: int| piece_name(pieces@[k]@)));
        i += 1;
    }
    join_strings(names.as_slice(), "+")
}

/// Whether a rich write reads back: checks, in order, the text, the markup and the
/// RTF the item has (`*_present`), each by whether it reads back (`*_ok`); the first
/// that does settles it. The detail lists each check made, as `name=ok` or
/// `name=fail`, joined by `, `.
pub fn rich_verify(
    text_present: bool,
    text_ok: bool,
    html_present: bool,
    html_ok: bool,
    rtf_present: bool,
    rtf_ok: bool,
) -> (r: (bool, String))
    ensures
        r.0 == ((text_present && text_ok) || (html_present && html_ok) || (rtf_present
            && rtf_ok)),
        r.1@ == join_with(verify_parts(text_present, text_ok, html_present, html_ok, rtf_present, rtf_ok), ", "@),
{
    let mut parts: Vec<String> = Vec::new();
    if text_present {
        parts.push(if text_ok { text_of("text=ok") } else { text_of("text=fail") });
        if text_ok {
            assert(string_views(parts@) =~= verify_parts(text_present, text_ok, html_present, html_ok, rtf_present, rtf_ok));
            return (true, join_strings(parts.as_slice(), ", "));
        }
    }
    if html_present {
        parts.push(if html_ok { text_of("html=ok") } else { text_of("html=fail") });
        if html_ok {
            assert(string_views(parts@) =~= verify_parts(text_present, text_ok, html_present, html_ok, rtf_present, rtf_ok));
            return (true, join_strings(parts.as_slice(), ", "));
        }
    }
    if rtf_present {
        parts.push(if rtf_ok { text_of("rtf=ok") } else { text_of("rtf=fail") });
        if rtf_ok {
            assert(string_views(parts@) =~= verify_parts(text_present, text_ok, html_present, html_ok, rtf_present, rtf_ok));
            return (true, join_strings(parts.as_slice(), ", "));
        }
    }
    assert(string_views(parts@) =~= verify_parts(text_present, text_ok, html_present, html_ok, rtf_present, rtf_ok));
    (false, join_strings(parts.as_slice(), ", "))
}

/// The checks a read-back makes, up to the first that succeeds.
pub open spec fn verify_parts(
    text_present: bool,
    text_ok: bool,
    html_present: bool,
    html_ok: bool,
    rtf_present: bool,
    rtf_ok: bool,
) -> Seq<Seq<char>> {
    let t: Seq<Seq<char>> = if text_present {
        seq![if text_ok { "text=ok"@ } else { "text=fail"@ }]
    } else {
        seq![]
    };
    let h: Seq<Seq<char>> = if html_present {
        seq![if html_ok { "html=ok"@ } else { "html=fail"@ }]
    } else {
        seq![]
    };
    let f: Seq<Seq<char>> = if rtf_present {
        seq![if rtf_ok { "rtf=ok"@ } else { "rtf=fail"@ }]
    } else {
        seq![]
    };
    if text_present && text_ok {
        t
    } else if html_present && html_ok {
        t + h
    } else {
        t + h + f
    }
}

} // verus!
