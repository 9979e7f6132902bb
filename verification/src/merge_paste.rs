//! Merged paste: the text, markup and files of several items gathered to be written
//! to the clipboard at once.
use vstd::prelude::*;
use crate::database::ClipboardItem;
use crate::file_clipboard::{
    concat_all, dedup_seq, merge_resolved, opt_payload, opt_text, parsed_paths,
    resolve_item_paths, resolve_spec, FilePayload,
};
use crate::format_write::{alt_text_spec, item_alt_text, opt_nonempty};
use crate::text::{append_chars, chars_eq, chars_of, string_of, string_views};

verus! {

/// `parts` joined with `sep`.
pub open spec fn join_with(parts: Seq<Seq<char>>, sep: Seq<char>) -> Seq<char>
    decreases parts.len(),
{
    if parts.len() == 0 {
        seq![]
    } else if parts.len() == 1 {
        parts[0]
    } else {
        join_with(parts.drop_last(), sep) + sep + parts.last()
    }
}

/// `parts` joined with `sep`.
pub fn join_strings(parts: &[String], sep: &str) -> (out: String)
    ensures
        out@ == join_with(string_views(parts@), sep@),
{
    let sepc = chars_of(sep);
    let mut out: Vec<char> = Vec::new();
    let ghost views = string_views(parts@);
    let mut i: usize = 0;
    while i < parts.len()
        invariant
            i <= parts@.len(),
            views == string_views(parts@),
            sepc@ == sep@,
            out@ == join_with(views.take(i as int), sep@),
        decreases parts.len() - i,
    {
        let ghost prev = out@;
        if i > 0 {
            append_chars(&mut out, sepc.as_slice());
        }
        let p = chars_of(parts[i].as_str());
        append_chars(&mut out, p.as_slice());
        assert(views.take(i + 1).drop_last() =~= views.take(i as int));
        assert(views.take(i + 1).last() == parts@[i as int]@);
        if i == 0 {
            assert(out@ =~= join_with(views.take(1), sep@));
        }
        i += 1;
    }
    assert(views.take(i as int) =~= views);
    string_of(out.as_slice())
}

pub open spec fn newline() -> Seq<char> {
    seq!['\n']
}

/// The text an item contributes to a merged paste, given how its files resolve: its
/// text; for files their resolved paths, one per line; for an image its path; else
/// its plain-text companion.
pub open spec fn merge_text_spec(item: ClipboardItem, resolved: Seq<Seq<char>>) -> Option<
    Seq<char>,
> {
    match opt_nonempty(item.text_content) {
        Some(t) => Some(t),
        None => if item.content_type@ == "files"@ && resolved.len() > 0 {
            Some(join_with(resolved, newline()))
        } else if item.content_type@ == "image"@ {
            opt_nonempty(item.image_path)
        } else {
            alt_text_spec(item)
        },
    }
}

fn same_text(a: &str, b: &str) -> (r: bool)
    ensures
        r == (a@ == b@),
{
    let x = chars_of(a);
    let y = chars_of(b);
    chars_eq(x.as_slice(), y.as_slice())
}

fn opt_str(s: &Option<String>) -> (r: Option<&str>)
    ensures
        opt_text(r) == match s {
            Some(t) => Some(t@),
            None => None::<Seq<char>>,
        },
{
    match s {
        Some(t) => Some(t.as_str()),
        None => None,
    }
}

/// The paths stored with an item, as parsed.
pub open spec fn item_paths(item: ClipboardItem) -> Seq<Seq<char>> {
    parsed_paths(
        match item.file_paths {
            Some(t) => Some(t@),
            None => None,
        },
    )
}

pub open spec fn opt_view(r: Option<String>) -> Option<Seq<char>> {
    match r {
        Some(s) => Some(s@),
        None => None,
    }
}

/// The text an item contributes to a merged paste; `payload` is the item's decoded
/// file payload. Files are resolved against the disk: the result is the one for some
/// answer of the disk on whether each path exists.
pub fn extract_merge_text(item: &ClipboardItem, payload: Option<&FilePayload>) -> (r: Option<String>)
    ensures
        exists|e: Seq<bool>|
            #[trigger] e.len() == item_paths(*item).len() && opt_view(r) == merge_text_spec(
                *item,
                resolve_spec(item_paths(*item), opt_payload(payload), e),
            ),
{
    let ghost paths = item_paths(*item);
    let ghost any = Seq::<bool>::new(paths.len(), |i: int| false);
    if let Some(t) = &item.text_content {
        if !t.as_str().is_empty() {
            let r = Some(t.clone());
            assert(any.len() == paths.len() && opt_view(r) == merge_text_spec(
                *item,
                resolve_spec(paths, opt_payload(payload), any),
            ));
            return r;
        }
    }
    let ct = item.content_type.as_str();
    if same_text(ct, "files") {
        let resolved = resolve_item_paths(opt_str(&item.file_paths), payload);
        let ghost w = choose|w: Seq<bool>|
            w.len() == paths.len() && string_views(resolved@) == resolve_spec(
                paths,
                opt_payload(payload),
                w,
            );
        assert(string_views(resolved@).len() == resolved@.len());
        if resolved.len() > 0 {
            let joined = join_strings(resolved.as_slice(), "\n");
            proof {
                reveal_strlit("\n");
            }
            assert("\n"@ =~= newline());
            let r = Some(joined);
            assert(w.len() == paths.len() && opt_view(r) == merge_text_spec(
                *item,
                resolve_spec(paths, opt_payload(payload), w),
            ));
            return r;
        }
        let r = item_alt_text(item);
        proof {
            reveal_strlit("files");
            reveal_strlit("image");
            assert("files"@[0] != "image"@[0]);
        }
        assert(w.len() == paths.len() && opt_view(r) == merge_text_spec(
            *item,
            resolve_spec(paths, opt_payload(payload), w),
        ));
        return r;
    }
    let r = if same_text(ct, "image") {
        match &item.image_path {
            Some(p) => if !p.as_str().is_empty() {
                Some(p.clone())
            } else {
                None
            },
            None => None,
        }
    } else {
        item_alt_text(item)
    };
    assert(any.len() == paths.len() && opt_view(r) == merge_text_spec(
        *item,
        resolve_spec(paths, opt_payload(payload), any),
    ));
    r
}

/// The markup of a merged paste: the non-empty HTML of the items joined with the
/// separator, if any item has some.
pub open spec fn html_parts(items: Seq<ClipboardItem>) -> Seq<Seq<char>>
    decreases items.len(),
{
    if items.len() == 0 {
        seq![]
    } else {
        let rest = html_parts(items.drop_last());
        match opt_nonempty(items.last().html_content) {
            Some(h) => rest.push(h),
            None => rest,
        }
    }
}

/// The joined markup of the items, none when no item has any.
pub fn merged_html(items: &[ClipboardItem], separator: &str) -> (r: Option<String>)
    ensures
        match r {
            Some(h) => html_parts(items@).len() > 0 && h@ == join_with(
                html_parts(items@),
                separator@,
            ),
            None => html_parts(items@).len() == 0,
        },
{
    let mut parts: Vec<String> = Vec::new();
    let mut i: usize = 0;
    while i < items.len()
        invariant
            i <= items@.len(),
            string_views(parts@) == html_parts(items@.take(i as int)),
        decreases items.len() - i,
    {
        assert(items@.take(i + 1).drop_last() =~= items@.take(i as int));
        assert(items@.take(i + 1).last() == items@[i as int]);
        if let Some(h) = &items[i].html_content {
            if !h.as_str().is_empty() {
                let ghost before = parts@;
                let hc = h.clone();
                parts.push(hc);
                proof {
                    crate::text::lemma_string_views_push(before, hc);
                }
            }
        }
        i += 1;
    }
    assert(items@.take(i as int) =~= items@);
    if parts.len() == 0 {
        None
    } else {
        Some(join_strings(parts.as_slice(), separator))
    }
}

/// The text an item contributes to a merged paste, given its resolved file paths
/// (see `merge_text_spec`).
pub fn merge_text_with(item: &ClipboardItem, resolved: &Vec<String>) -> (r: Option<String>)
    ensures
        opt_view(r) == merge_text_spec(*item, string_views(resolved@)),
{
    if let Some(t) = &item.text_content {
        if !t.as_str().is_empty() {
            return Some(t.clone());
        }
    }
    let ct = item.content_type.as_str();
    if same_text(ct, "files") && resolved.len() > 0 {
        assert(string_views(resolved@).len() == resolved@.len());
        let joined = join_strings(resolved.as_slice(), "\n");
        proof {
            reveal_strlit("\n");
        }
        assert("\n"@ =~= newline());
        return Some(joined);
    }
    assert(string_views(resolved@).len() == resolved@.len());
    if same_text(ct, "image") {
        proof {
            reveal_strlit("files");
            reveal_strlit("image");
            assert("files"@[0] != "image"@[0]);
        }
        match &item.image_path {
            Some(p) => if !p.as_str().is_empty() {
                Some(p.clone())
            } else {
                None
            },
            None => None,
        }
    } else {
        item_alt_text(item)
    }
}

/// What a merged paste writes: the files (of file items, then the cached images),
/// the texts joined, the markup joined, and the RTF when exactly one item has some.
#[derive(Debug, Clone, PartialEq, Eq)]
pub struct MergePlan {
    pub files: Vec<String>,
    pub text: Option<String>,
    pub html: Option<String>,
    pub rtf: Option<Vec<u8>>,
}

/// The resolved path lists of the file items among the first `k`, in order.
pub open spec fn file_lists(items: Seq<ClipboardItem>, resolved: Seq<Seq<Seq<char>>>, k: int) -> Seq<
    Seq<Seq<char>>,
>
    decreases k,
{
    if k <= 0 {
        seq![]
    } else {
        file_lists(items, resolved, k - 1) + if items[k - 1].content_type@ == "files"@ {
            seq![resolved[k - 1]]
        } else {
            seq![]
        }
    }
}

/// `paths` with the cached images of the first `k` items added: an image item's path
/// when the file exists and is not listed yet.
pub open spec fn with_images(
    paths: Seq<Seq<char>>,
    items: Seq<ClipboardItem>,
    exists: Seq<bool>,
    k: int,
) -> Seq<Seq<char>>
    decreases k,
{
    if k <= 0 {
        paths
    } else {
        let acc = with_images(paths, items, exists, k - 1);
        let item = items[k - 1];
        match item.image_path {
            Some(p) => if item.content_type@ == "image"@ && exists[k - 1] && !acc.contains(p@) {
                acc.push(p@)
            } else {
                acc
            },
            None => acc,
        }
    }
}

/// The texts the first `k` items contribute, in order.
pub open spec fn text_parts(items: Seq<ClipboardItem>, resolved: Seq<Seq<Seq<char>>>, k: int) -> Seq<
    Seq<char>,
>
    decreases k,
{
    if k <= 0 {
        seq![]
    } else {
        let rest = text_parts(items, resolved, k - 1);
        match merge_text_spec(items[k - 1], resolved[k - 1]) {
            Some(t) => rest.push(t),
            None => rest,
        }
    }
}

/// The non-empty RTF of the first `k` items, in order.
pub open spec fn rtf_parts(rtf: Seq<Option<Vec<u8>>>, k: int) -> Seq<Seq<u8>>
    decreases k,
{
    if k <= 0 {
        seq![]
    } else {
        let rest = rtf_parts(rtf, k - 1);
        match rtf[k - 1] {
            Some(b) => if b@.len() > 0 {
                rest.push(b@)
            } else {
                rest
            },
            None => rest,
        }
    }
}

pub open spec fn vec_views(v: Seq<Vec<String>>) -> Seq<Seq<Seq<char>>> {
    v.map_values(|l: Vec<String>| string_views(l@))
}

fn copy_strings(v: &Vec<String>) -> (out: Vec<String>)
    ensures
        string_views(out@) == string_views(v@),
{
    let mut out: Vec<String> = Vec::new();
    let mut i: usize = 0;
    while i < v.len()
        invariant
            i <= v@.len(),
            string_views(out@) == string_views(v@.take(i as int)),
        decreases v.len() - i,
    {
        let ghost before = out@;
        out.push(v[i].clone());
        proof {
            crate::text::lemma_string_views_push(before, out@.last());
        }
        assert(v@.take(i + 1) =~= v@.take(i as int).push(v@[i as int]));
        assert(string_views(v@.take(i + 1)) =~= string_views(v@.take(i as int)).push(v@[i as int]@));
        i += 1;
    }
    assert(v@.take(i as int) =~= v@);
    out
}

fn contains_path(list: &Vec<String>, p: &String) -> (b: bool)
    ensures
        b == string_views(list@).contains(p@),
{
    let pc = chars_of(p.as_str());
    let mut i: usize = 0;
    while i < list.len()
        invariant
            i <= list@.len(),
            pc@ == p@,
            forall|j: int| 0 <= j < i ==> list@[j]@ != p@,
        decreases list.len() - i,
    {
        let c = chars_of(list[i].as_str());
        if chars_eq(c.as_slice(), pc.as_slice()) {
            assert(string_views(list@)[i as int] == p@);
            return true;
        }
        i += 1;
    }
    assert forall|j: int| 0 <= j < string_views(list@).len() implies string_views(list@)[j]
        != p@ by {}
    false
}

/// What a merged paste of `items` writes, or why there is nothing to write.
/// `resolved` holds each item's file paths as resolved against the disk, `image_exists`
/// whether each item's cached image file exists, and `rtf` each item's RTF as it goes
/// to the clipboard (none when it is not written). Merged files are the file items'
/// paths with repeats dropped, then the existing images not listed yet; texts and
/// markup are joined with `separator`.
#[verifier::rlimit(30)]
pub fn merge_plan(
    items: &[ClipboardItem],
    resolved: &[Vec<String>],
    image_exists: &[bool],
    rtf: &[Option<Vec<u8>>],
    separator: &str,
) -> (r: Result<MergePlan, String>)
    requires
        resolved@.len() == items@.len(),
        image_exists@.len() == items@.len(),
        rtf@.len() == items@.len(),
    ensures
        items@.len() == 0 ==> (r matches Err(e) && e@ == "No items selected"@),
        items@.len() > 0 ==> ({
            let n = items@.len() as int;
            let rs = vec_views(resolved@);
            let files = with_images(
                dedup_seq(concat_all(file_lists(items@, rs, n))),
                items@,
                image_exists@,
                n,
            );
            let texts = text_parts(items@, rs, n);
            let rtfs = rtf_parts(rtf@, n);
            let nothing = files.len() == 0 && texts.len() == 0 && html_parts(items@).len() == 0
                && rtfs.len() != 1;
            &&& nothing ==> (r matches Err(e) && e@ == "选中的项目没有可合并的内容"@)
            &&& !nothing ==> (r matches Ok(p) && string_views(p.files@) == files && (if texts.len()
                > 0 {
                p.text matches Some(t) && t@ == join_with(texts, separator@)
            } else {
                p.text is None
            }) && (if html_parts(items@).len() > 0 {
                p.html matches Some(h) && h@ == join_with(html_parts(items@), separator@)
            } else {
                p.html is None
            }) && (if rtfs.len() == 1 {
                p.rtf matches Some(b) && b@ == rtfs[0]
            } else {
                p.rtf is None
            }))
        }),
{
    if items.len() == 0 {
        return Err("No items selected".to_owned());
    }
    let ghost n = items@.len() as int;
    let ghost rs = vec_views(resolved@);
    // Files of file items.
    let mut lists: Vec<Vec<String>> = Vec::new();
    let mut i: usize = 0;
    while i < items.len()
        invariant
            i <= items@.len(),
            resolved@.len() == items@.len(),
            rs == vec_views(resolved@),
            vec_views(lists@) == file_lists(items@, rs, i as int),
        decreases items.len() - i,
    {
        if same_text(items[i].content_type.as_str(), "files") {
            let copy = copy_strings(&resolved[i]);
            lists.push(copy);
        }
        assert(vec_views(lists@) =~= file_lists(items@, rs, i + 1));
        i += 1;
    }
    let mut files = merge_resolved(lists.as_slice());
    // Cached images.
    let ghost base = dedup_seq(concat_all(file_lists(items@, rs, n)));
    let mut i: usize = 0;
    while i < items.len()
        invariant
            i <= items@.len(),
            image_exists@.len() == items@.len(),
            string_views(files@) == with_images(base, items@, image_exists@, i as int),
        decreases items.len() - i,
    {
        let item = &items[i];
        if let Some(p) = &item.image_path {
            if same_text(item.content_type.as_str(), "image") && image_exists[i] && !contains_path(
                &files,
                p,
            ) {
                let ghost before = files@;
                files.push(p.clone());
                proof {
                    crate::text::lemma_string_views_push(before, files@.last());
                }
            }
        }
        assert(string_views(files@) =~= with_images(base, items@, image_exists@, i + 1));
        i += 1;
    }
    // Texts.
    let mut texts: Vec<String> = Vec::new();
    let mut i: usize = 0;
    while i < items.len()
        invariant
            i <= items@.len(),
            resolved@.len() == items@.len(),
            rs == vec_views(resolved@),
            string_views(texts@) == text_parts(items@, rs, i as int),
        decreases items.len() - i,
    {
        let t = merge_text_with(&items[i], &resolved[i]);
        assert(string_views(resolved@[i as int]@) == rs[i as int]);
        if let Some(t) = t {
            let ghost before = texts@;
            texts.push(t);
            proof {
                crate::text::lemma_string_views_push(before, texts@.last());
            }
        }
        assert(string_views(texts@) =~= text_parts(items@, rs, i + 1));
        i += 1;
    }
    // RTF.
    let mut count: usize = 0;
    let mut only: Option<Vec<u8>> = None;
    let mut i: usize = 0;
    while i < items.len()
        invariant
            i <= items@.len(),
            rtf@.len() == items@.len(),
            count == rtf_parts(rtf@, i as int).len(),
            count == 1 ==> (only matches Some(b) && b@ == rtf_parts(rtf@, i as int)[0]),
            count <= i,
        decreases items.len() - i,
    {
        if let Some(b) = &rtf[i] {
            if b.len() > 0 {
                if count == 0 {
                    only = Some(b.clone());
                }
                count = count + 1;
            }
        }
        i += 1;
    }
    let html = merged_html(items, separator);
    let text = if texts.len() > 0 {
        Some(join_strings(texts.as_slice(), separator))
    } else {
        None
    };
    assert(string_views(texts@).len() == texts@.len());
    let rtf_out = if count == 1 {
        only
    } else {
        None
    };
    assert(string_views(files@).len() == files@.len());
    if files.len() == 0 && text.is_none() && html.is_none() && rtf_out.is_none() {
        return Err("选中的项目没有可合并的内容".to_owned());
    }
    Ok(MergePlan { files, text, html, rtf: rtf_out })
}

} // verus!
