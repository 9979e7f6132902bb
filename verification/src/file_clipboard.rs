//! File clipboard items: the captured path list, its serialised payload of companion
//! formats and staged copies, and how a stored item is turned back into paths.
//!
//! Whether a path exists is a fact about the disk at the moment of the call. The
//! functions that look at the disk state their result for *some* answer of the
//! disk; the `*_with` functions take those answers as arguments and are exact.
use base64::Engine;
use vstd::prelude::*;
use vstd::string::StringSliceAdditionalSpecFns;
use crate::hashing::blake3_hex;
use crate::text::{
    chars_of, contains_seq, find_chars, lemma_string_views_push, string_of, string_views,
};

verus! {

/// Files captured from the clipboard, before anything is staged.
#[derive(Debug, Clone)]
pub struct FileCaptureData {
    pub paths: Vec<String>,
    pub hdrop_raw: Option<Vec<u8>>,
    pub extra_formats: Vec<(String, Vec<u8>)>,
}

impl Default for FileCaptureData {
    fn default() -> (d: Self)
        ensures
            d.paths@.len() == 0,
            d.hdrop_raw is None,
            d.extra_formats@.len() == 0,
    {
        FileCaptureData { paths: Vec::new(), hdrop_raw: None, extra_formats: Vec::new() }
    }
}

/// The payload stored with a file item: the raw drop list and companion formats in
/// base64, and the files that were copied to the staging directory.
#[derive(Debug, Clone, PartialEq, Eq)]
pub struct FilePayload {
    pub hdrop_b64: Option<String>,
    pub extra: Vec<FormatBlob>,
    pub staged: Vec<StagedFile>,
}

impl Default for FilePayload {
    fn default() -> (d: Self)
        ensures
            d.hdrop_b64 is None,
            d.extra@.len() == 0,
            d.staged@.len() == 0,
    {
        FilePayload { hdrop_b64: None, extra: Vec::new(), staged: Vec::new() }
    }
}

/// One companion clipboard format, by name, with its bytes in base64.
#[derive(Debug, Clone, PartialEq, Eq)]
pub struct FormatBlob {
    pub name: String,
    pub b64: String,
}

/// A file copied to the staging directory: where it was, where its copy is, its size.
#[derive(Debug, Clone, PartialEq, Eq)]
pub struct StagedFile {
    pub original: String,
    pub staged: String,
    pub size: u64,
}

/// Files larger than this are not staged unless a larger limit is configured.
pub const DEFAULT_MAX_STAGE_BYTES: u64 = 52428800;

/// Companion formats larger than this are not kept.
pub const MAX_EXTRA_FORMAT_BYTES: usize = 65536;

// ------------------------------------------------------------------ models

pub open spec fn opt_payload(p: Option<&FilePayload>) -> Option<FilePayload> {
    match p {
        Some(x) => Some(*x),
        None => None,
    }
}

pub open spec fn opt_text(raw: Option<&str>) -> Option<Seq<char>> {
    match raw {
        Some(s) => Some(s@),
        None => None,
    }
}

/// What `serde_json` reads from `text` as a JSON array of strings, or the message of
/// its error when the text is not one.
pub uninterp spec fn json_string_array(text: Seq<char>) -> Result<Seq<Seq<char>>, Seq<char>>;

/// The path list stored with an item: empty when absent, empty or not a JSON
/// array of strings.
pub open spec fn parsed_paths(raw: Option<Seq<char>>) -> Seq<Seq<char>> {
    match raw {
        Some(t) => if t.len() == 0 {
            seq![]
        } else {
            match json_string_array(t) {
                Ok(v) => v,
                Err(_) => seq![],
            }
        },
        None => seq![],
    }
}

/// Index of the last staged entry whose original path is `p`, or -1.
pub open spec fn last_staged_index(staged: Seq<StagedFile>, p: Seq<char>) -> int
    decreases staged.len(),
{
    if staged.len() == 0 {
        -1
    } else if staged.last().original@ == p {
        staged.len() - 1
    } else {
        last_staged_index(staged.drop_last(), p)
    }
}

/// The staged copy recorded for `p` (the last one, when several are).
pub open spec fn staged_copy(payload: Option<FilePayload>, p: Seq<char>) -> Option<Seq<char>> {
    match payload {
        Some(pl) => {
            let k = last_staged_index(pl.staged@, p);
            if k >= 0 {
                Some(pl.staged@[k].staged@)
            } else {
                None
            }
        },
        None => None,
    }
}

/// A path as it is handed back: itself when it exists, else its staged copy if
/// there is one, else itself.
pub open spec fn resolve_one(p: Seq<char>, exists: bool, payload: Option<FilePayload>) -> Seq<
    char,
> {
    if exists {
        p
    } else {
        match staged_copy(payload, p) {
            Some(s) => s,
            None => p,
        }
    }
}

/// Every path resolved, `exists[i]` telling whether `paths[i]` is on disk.
pub open spec fn resolve_spec(
    paths: Seq<Seq<char>>,
    payload: Option<FilePayload>,
    exists: Seq<bool>,
) -> Seq<Seq<char>> {
    Seq::new(paths.len(), |i: int| resolve_one(paths[i], exists[i], payload))
}

/// `r` is the resolution of `paths` for some answer of the disk.
pub open spec fn resolves_to(
    paths: Seq<Seq<char>>,
    payload: Option<FilePayload>,
    r: Seq<Seq<char>>,
) -> bool {
    exists|e: Seq<bool>| #[trigger] e.len() == paths.len() && r == resolve_spec(paths, payload, e)
}

/// The staging paths recorded in a list of staged files.
pub open spec fn staged_targets(staged: Seq<StagedFile>) -> Seq<Seq<char>> {
    staged.map_values(|s: StagedFile| s.staged@)
}

pub open spec fn all_true(e: Seq<bool>) -> bool {
    forall|i: int| 0 <= i < e.len() ==> e[i]
}

pub open spec fn has_hdrop(payload: Option<FilePayload>) -> bool {
    match payload {
        Some(p) => p.hdrop_b64 is Some,
        None => false,
    }
}

/// The concatenation of all lists, in order.
pub open spec fn concat_all(lists: Seq<Seq<Seq<char>>>) -> Seq<Seq<char>>
    decreases lists.len(),
{
    if lists.len() == 0 {
        seq![]
    } else {
        concat_all(lists.drop_last()) + lists.last()
    }
}

/// `s` with every repeated element dropped, first occurrences kept in order.
pub open spec fn dedup_seq(s: Seq<Seq<char>>) -> Seq<Seq<char>>
    decreases s.len(),
{
    if s.len() == 0 {
        seq![]
    } else {
        let d = dedup_seq(s.drop_last());
        if d.contains(s.last()) {
            d
        } else {
            d.push(s.last())
        }
    }
}

// ------------------------------------------------------------------ trusted calls

/// Calls `serde_json::from_str::<Vec<String>>`.
///
/// Trusted: the result is `json_string_array` of the text, the error given by its
/// message (`Display`); a parse and its message depend on the text alone.
#[verifier::external_body]
pub(crate) fn json_string_list(raw: &str) -> (r: Result<Vec<String>, String>)
    ensures
        match r {
            Ok(v) => json_string_array(raw@) == Ok::<Seq<Seq<char>>, Seq<char>>(string_views(v@)),
            Err(m) => json_string_array(raw@) == Err::<Seq<Seq<char>>, Seq<char>>(m@),
        },
{
    serde_json::from_str::<Vec<String>>(raw).map_err(|e| e.to_string())
}

/// Calls `std::path::Path::exists` on the path.
///
/// Nothing is stated of the answer: it depends on the file system at the moment of
/// the call.
#[verifier::external_body]
fn path_exists(path: &str) -> bool {
    std::path::Path::new(path).exists()
}

/// The character of a six-bit value in the standard base64 alphabet: `A`-`Z`, `a`-`z`,
/// `0`-`9`, `+`, `/`.
pub open spec fn base64_char(v: nat) -> char {
    if v < 26 {
        ((65 + v) as u8) as char
    } else if v < 52 {
        ((71 + v) as u8) as char
    } else if v < 62 {
        ((v - 4) as u8) as char
    } else if v == 62 {
        '+'
    } else {
        '/'
    }
}

/// Standard base64 with padding: every group of three bytes as four characters of six
/// bits each, high bits first; a last group of one or two bytes is padded with `=`.
pub open spec fn base64_standard(b: Seq<u8>) -> Seq<char>
    decreases b.len(),
{
    if b.len() == 0 {
        seq![]
    } else if b.len() == 1 {
        seq![base64_char((b[0] / 4) as nat), base64_char(((b[0] % 4) * 16) as nat), '=', '=']
    } else if b.len() == 2 {
        seq![
            base64_char((b[0] / 4) as nat),
            base64_char(((b[0] % 4) * 16 + b[1] / 16) as nat),
            base64_char(((b[1] % 16) * 4) as nat),
            '=',
        ]
    } else {
        seq![
            base64_char((b[0] / 4) as nat),
            base64_char(((b[0] % 4) * 16 + b[1] / 16) as nat),
            base64_char(((b[1] % 16) * 4 + b[2] / 64) as nat),
            base64_char((b[2] % 64) as nat),
        ] + base64_standard(b.skip(3))
    }
}

/// Calls `base64::engine::general_purpose::STANDARD.encode`.
///
/// Trusted: the `STANDARD` engine writes the standard alphabet with padding, which is
/// `base64_standard`: four characters for each started group of three bytes. The
/// crate panics when that length does not fit in `usize`, which `requires` leaves out.
#[verifier::external_body]
fn base64_encode(bytes: &[u8]) -> (s: String)
    requires
        4 * ((bytes@.len() + 2) / 3) <= usize::MAX,
    ensures
        s@ == base64_standard(bytes@),
        s@.len() == 4 * ((bytes@.len() + 2) / 3),
{
    base64::engine::general_purpose::STANDARD.encode(bytes)
}

// ------------------------------------------------------------------ parsing

/// The path list stored with an item, read as a JSON array of strings.
pub fn parse_file_paths(raw: Option<&str>) -> (out: Vec<String>)
    ensures
        string_views(out@) == parsed_paths(opt_text(raw)),
{
    match raw {
        Some(t) => {
            if t.is_empty() {
                return Vec::new();
            }
            match json_string_list(t) {
                Ok(v) => v,
                Err(_) => {
                    let out: Vec<String> = Vec::new();
                    assert(string_views(out@) =~= seq![]);
                    out
                },
            }
        },
        None => {
            let out: Vec<String> = Vec::new();
            assert(string_views(out@) =~= seq![]);
            out
        },
    }
}

/// The staging paths recorded in a payload, in order.
pub fn staged_paths_from_payload(payload: Option<&FilePayload>) -> (out: Vec<String>)
    ensures
        match payload {
            Some(p) => string_views(out@) == staged_targets(p.staged@),
            None => out@.len() == 0,
        },
{
    let mut out: Vec<String> = Vec::new();
    match payload {
        Some(p) => {
            let mut i: usize = 0;
            while i < p.staged.len()
                invariant
                    i <= p.staged@.len(),
                    string_views(out@) == staged_targets(p.staged@.take(i as int)),
                decreases p.staged.len() - i,
            {
                let ghost before = out@;
                out.push(p.staged[i].staged.clone());
                proof {
                    lemma_string_views_push(before, p.staged@[i as int].staged);
                    assert(staged_targets(p.staged@.take(i + 1)) =~= staged_targets(
                        p.staged@.take(i as int),
                    ).push(p.staged@[i as int].staged@));
                }
                i += 1;
            }
            assert(p.staged@.take(i as int) == p.staged@);
        },
        None => {},
    }
    out
}

/// The staging paths recorded in several payloads, in order; absent payloads (not
/// decodable) record none.
pub open spec fn staged_of_all(payloads: Seq<Option<FilePayload>>) -> Seq<Seq<char>>
    decreases payloads.len(),
{
    if payloads.len() == 0 {
        seq![]
    } else {
        staged_of_all(payloads.drop_last()) + match payloads.last() {
            Some(p) => staged_targets(p.staged@),
            None => seq![],
        }
    }
}

/// The staged copies to delete with removed items: those of every payload, in order.
pub fn staged_paths_of_payloads(payloads: &[Option<FilePayload>]) -> (out: Vec<String>)
    ensures
        string_views(out@) == staged_of_all(payloads@),
{
    let mut out: Vec<String> = Vec::new();
    let mut i: usize = 0;
    while i < payloads.len()
        invariant
            i <= payloads@.len(),
            string_views(out@) == staged_of_all(payloads@.take(i as int)),
        decreases payloads.len() - i,
    {
        let some = staged_paths_from_payload(payloads[i].as_ref());
        let ghost before = out@;
        let mut j: usize = 0;
        while j < some.len()
            invariant
                j <= some@.len(),
                string_views(out@) == string_views(before) + string_views(some@).take(j as int),
            decreases some.len() - j,
        {
            let ghost b2 = out@;
            let x = some[j].clone();
            out.push(x);
            proof {
                lemma_string_views_push(b2, x);
                assert(string_views(some@).take(j + 1) =~= string_views(some@).take(j as int).push(
                    x@,
                ));
            }
            j += 1;
        }
        assert(string_views(some@).take(j as int) =~= string_views(some@));
        assert(payloads@.take(i + 1).drop_last() =~= payloads@.take(i as int));
        assert(payloads@.take(i + 1).last() == payloads@[i as int]);
        proof {
            match payloads@[i as int] {
                Some(p) => {},
                None => {
                    assert(string_views(some@) =~= seq![]);
                },
            }
        }
        i += 1;
    }
    assert(payloads@.take(i as int) =~= payloads@);
    out
}

// ------------------------------------------------------------------ existence

/// The disk's answer for each path, in order.
fn existence(paths: &[String]) -> (e: Vec<bool>)
    ensures
        e@.len() == paths@.len(),
{
    let mut e: Vec<bool> = Vec::new();
    let mut i: usize = 0;
    while i < paths.len()
        invariant
            i <= paths@.len(),
            e@.len() == i,
        decreases paths.len() - i,
    {
        e.push(path_exists(paths[i].as_str()));
        i += 1;
    }
    e
}

/// Whether there is at least one answer and every answer says the path exists.
pub fn all_present(exists: &[bool]) -> (r: bool)
    ensures
        r == (exists@.len() > 0 && all_true(exists@)),
{
    if exists.len() == 0 {
        return false;
    }
    let mut i: usize = 0;
    while i < exists.len()
        invariant
            i <= exists@.len(),
            forall|j: int| 0 <= j < i ==> exists@[j],
        decreases exists.len() - i,
    {
        if !exists[i] {
            return false;
        }
        i += 1;
    }
    true
}

/// Whether the list is non-empty and every path in it exists on disk.
pub fn originals_all_exist(paths: &[String]) -> (r: bool)
    ensures
        exists|e: Seq<bool>| #[trigger] e.len() == paths@.len() && r == (e.len() > 0 && all_true(e)),
        r ==> paths@.len() > 0,
{
    let e = existence(paths);
    let r = all_present(&e);
    assert(e@.len() == paths@.len() && r == (e@.len() > 0 && all_true(e@)));
    r
}

/// The captured drop list is written back as it was only when the payload holds it
/// and every original path still exists.
pub fn should_use_raw_hdrop(original_paths: &[String], payload: Option<&FilePayload>) -> (r: bool)
    ensures
        exists|e: Seq<bool>|
            #[trigger] e.len() == original_paths@.len() && r == (has_hdrop(opt_payload(payload)) && e.len() > 0
                && all_true(e)),
        r ==> has_hdrop(opt_payload(payload)) && original_paths@.len() > 0,
{
    let with_hdrop = match payload {
        Some(p) => p.hdrop_b64.is_some(),
        None => false,
    };
    if !with_hdrop {
        let ghost w = Seq::<bool>::new(original_paths@.len(), |i: int| false);
        assert(w.len() == original_paths@.len() && false == (has_hdrop(opt_payload(payload))
            && w.len() > 0 && all_true(w)));
        return false;
    }
    let r = originals_all_exist(original_paths);
    let ghost w = choose|e: Seq<bool>|
        #[trigger] e.len() == original_paths@.len() && r == (e.len() > 0 && all_true(e));
    assert(w.len() == original_paths@.len() && r == (has_hdrop(opt_payload(payload)) && w.len() > 0
        && all_true(w)));
    r
}

// ------------------------------------------------------------------ resolution

/// The staged copy recorded for `p`, searching from the last entry.
fn staged_copy_of(payload: Option<&FilePayload>, p: &String) -> (r: Option<String>)
    ensures
        match r {
            Some(s) => staged_copy(opt_payload(payload), p@) == Some(s@),
            None => staged_copy(opt_payload(payload), p@) is None,
        },
{
    match payload {
        None => None,
        Some(pl) => {
            let mut i: usize = pl.staged.len();
            assert(pl.staged@.take(i as int) =~= pl.staged@);
            while i > 0
                invariant
                    i <= pl.staged@.len(),
                    opt_payload(payload) == Some(*pl),
                    last_staged_index(pl.staged@, p@) == last_staged_index(
                        pl.staged@.take(i as int),
                        p@,
                    ),
                decreases i,
            {
                let ghost prefix = pl.staged@.take(i as int);
                assert(prefix.drop_last() =~= pl.staged@.take(i - 1));
                assert(prefix.last() == pl.staged@[i - 1]);
                if pl.staged[i - 1].original == *p {
                    assert(last_staged_index(prefix, p@) == i - 1);
                    let found = pl.staged[i - 1].staged.clone();
                    assert(staged_copy(opt_payload(payload), p@) == Some(pl.staged@[i - 1].staged@));
                    return Some(found);
                }
                i -= 1;
            }
            None
        },
    }
}

/// Every path resolved against the given answers of the disk: a path that exists is
/// kept, a missing one is replaced by its staged copy when the payload records one.
pub fn resolve_with(paths: &[String], payload: Option<&FilePayload>, exists: &[bool]) -> (out: Vec<
    String,
>)
    requires
        exists@.len() == paths@.len(),
    ensures
        string_views(out@) == resolve_spec(string_views(paths@), opt_payload(payload), exists@),
{
    let mut out: Vec<String> = Vec::new();
    let mut i: usize = 0;
    while i < paths.len()
        invariant
            i <= paths@.len(),
            exists@.len() == paths@.len(),
            string_views(out@) == resolve_spec(string_views(paths@), opt_payload(payload), exists@).take(
                i as int,
            ),
        decreases paths.len() - i,
    {
        let r = if exists[i] {
            paths[i].clone()
        } else {
            match staged_copy_of(payload, &paths[i]) {
                Some(s) => s,
                None => paths[i].clone(),
            }
        };
        let ghost before = out@;
        out.push(r);
        proof {
            lemma_string_views_push(before, r);
            assert(resolve_spec(string_views(paths@), opt_payload(payload), exists@).take(i + 1)
                =~= resolve_spec(string_views(paths@), opt_payload(payload), exists@).take(
                i as int,
            ).push(r@));
        }
        i += 1;
    }
    assert(resolve_spec(string_views(paths@), opt_payload(payload), exists@).take(i as int)
        =~= resolve_spec(string_views(paths@), opt_payload(payload), exists@));
    out
}

/// Every path resolved against the disk as it is now.
pub fn resolve_paths(paths: &[String], payload: Option<&FilePayload>) -> (out: Vec<String>)
    ensures
        resolves_to(string_views(paths@), opt_payload(payload), string_views(out@)),
        out@.len() == paths@.len(),
{
    let e = existence(paths);
    let out = resolve_with(paths, payload, &e);
    assert(string_views(out@).len() == out@.len());
    out
}

/// The paths stored with an item, resolved against the disk.
pub fn resolve_item_paths(file_paths: Option<&str>, payload: Option<&FilePayload>) -> (out: Vec<
    String,
>)
    ensures
        resolves_to(parsed_paths(opt_text(file_paths)), opt_payload(payload), string_views(out@)),
{
    let paths = parse_file_paths(file_paths);
    resolve_paths(&paths, payload)
}

/// Whether a stored file item can be put back on the clipboard: with no path list,
/// when its payload holds a drop list or a companion format; otherwise when every
/// resolved path exists.
pub fn item_files_all_exist(file_paths: Option<&str>, payload: Option<&FilePayload>) -> (r: bool)
    ensures
        parsed_paths(opt_text(file_paths)).len() == 0 ==> r == match payload {
            Some(p) => p.hdrop_b64 is Some || p.extra@.len() > 0,
            None => false,
        },
        parsed_paths(opt_text(file_paths)).len() > 0 ==> exists|e: Seq<bool>|
            #[trigger] e.len() == parsed_paths(opt_text(file_paths)).len() && r == all_true(e),
{
    let originals = parse_file_paths(file_paths);
    if originals.len() == 0 {
        assert(string_views(originals@).len() == 0);
        return match payload {
            Some(p) => p.hdrop_b64.is_some() || p.extra.len() > 0,
            None => false,
        };
    }
    let resolved = resolve_item_paths(file_paths, payload);
    let e = existence(&resolved);
    let ghost parsed = parsed_paths(opt_text(file_paths));
    assert(string_views(originals@).len() == originals@.len());
    let ghost w = choose|w: Seq<bool>|
        w.len() == parsed.len() && string_views(resolved@) == resolve_spec(
            parsed,
            opt_payload(payload),
            w,
        );
    assert(string_views(resolved@).len() == resolved@.len());
    let r = all_present(&e);
    assert(e@.len() == parsed.len() && r == all_true(e@));
    r
}

// ------------------------------------------------------------------ merging

/// Whether `list` holds a string equal to `s`.
fn contains_string(list: &Vec<String>, s: &String) -> (r: bool)
    ensures
        r == string_views(list@).contains(s@),
{
    let mut i: usize = 0;
    while i < list.len()
        invariant
            i <= list@.len(),
            forall|j: int| 0 <= j < i ==> list@[j]@ != s@,
        decreases list.len() - i,
    {
        if list[i] == *s {
            assert(string_views(list@)[i as int] == s@);
            return true;
        }
        i += 1;
    }
    assert forall|j: int| 0 <= j < string_views(list@).len() implies string_views(list@)[j]
        != s@ by {}
    false
}

/// The lists concatenated with repeated paths dropped, first occurrences kept in order.
pub fn merge_resolved(lists: &[Vec<String>]) -> (out: Vec<String>)
    ensures
        string_views(out@) == dedup_seq(
            concat_all(lists@.map_values(|l: Vec<String>| string_views(l@))),
        ),
{
    let ghost ls = lists@.map_values(|l: Vec<String>| string_views(l@));
    let mut merged: Vec<String> = Vec::new();
    let mut i: usize = 0;
    assert(ls.take(0) =~= seq![]);
    while i < lists.len()
        invariant
            i <= lists@.len(),
            ls == lists@.map_values(|l: Vec<String>| string_views(l@)),
            string_views(merged@) == dedup_seq(concat_all(ls.take(i as int))),
        decreases lists.len() - i,
    {
        let list = &lists[i];
        let ghost before = concat_all(ls.take(i as int));
        let mut j: usize = 0;
        assert(before + string_views(list@).take(0) =~= before);
        while j < list.len()
            invariant
                i < lists@.len(),
                list == &lists@[i as int],
                j <= list@.len(),
                string_views(merged@) == dedup_seq(before + string_views(list@).take(j as int)),
            decreases list.len() - j,
        {
            let ghost cur = before + string_views(list@).take(j as int);
            let ghost next = before + string_views(list@).take(j + 1);
            assert(next.drop_last() =~= cur);
            assert(next.last() == list@[j as int]@);
            if !contains_string(&merged, &list[j]) {
                merged.push(list[j].clone());
                assert(string_views(merged@) =~= dedup_seq(cur).push(list@[j as int]@));
            }
            j += 1;
        }
        assert(ls.take(i + 1).drop_last() =~= ls.take(i as int));
        assert(ls.take(i + 1).last() == string_views(list@));
        assert(string_views(list@).take(j as int) =~= string_views(list@));
        i += 1;
    }
    assert(ls.take(i as int) =~= ls);
    merged
}

/// The paths of several stored file items, each resolved against the disk, with
/// repeated paths dropped and first occurrences kept in order.
pub fn merge_file_paths(items: &[(Option<&str>, Option<&FilePayload>)]) -> (out: Vec<String>)
    ensures
        exists|rs: Seq<Seq<Seq<char>>>|
            rs.len() == items@.len() && (forall|i: int|
                0 <= i < rs.len() ==> resolves_to(
                    parsed_paths(opt_text(#[trigger] items@[i].0)),
                    opt_payload(items@[i].1),
                    rs[i],
                )) && string_views(out@) == dedup_seq(concat_all(rs)),
{
    let mut lists: Vec<Vec<String>> = Vec::new();
    let mut i: usize = 0;
    while i < items.len()
        invariant
            i <= items@.len(),
            lists@.len() == i,
            forall|k: int|
                0 <= k < i ==> resolves_to(
                    parsed_paths(opt_text(#[trigger] items@[k].0)),
                    opt_payload(items@[k].1),
                    string_views(lists@[k]@),
                ),
        decreases items.len() - i,
    {
        let (paths_json, payload) = items[i];
        let resolved = resolve_item_paths(paths_json, payload);
        lists.push(resolved);
        i += 1;
    }
    let out = merge_resolved(&lists);
    let ghost rs = lists@.map_values(|l: Vec<String>| string_views(l@));
    assert(rs.len() == items@.len());
    out
}

// ------------------------------------------------------------------ capture

/// The payload of a capture before staging: the drop list and every companion
/// format in base64, nothing staged yet.
pub fn payload_from_capture(capture: &FileCaptureData) -> (p: FilePayload)
    requires
        match capture.hdrop_raw {
            Some(b) => 4 * ((b@.len() + 2) / 3) <= usize::MAX,
            None => true,
        },
        forall|i: int|
            0 <= i < capture.extra_formats@.len() ==> 4 * ((
            #[trigger] capture.extra_formats@[i]).1@.len() + 2) / 3 <= usize::MAX,
    ensures
        match capture.hdrop_raw {
            Some(b) => p.hdrop_b64 is Some && p.hdrop_b64->0@ == base64_standard(b@),
            None => p.hdrop_b64 is None,
        },
        p.extra@.len() == capture.extra_formats@.len(),
        forall|i: int|
            0 <= i < p.extra@.len() ==> (#[trigger] p.extra@[i]).name@
                == capture.extra_formats@[i].0@ && p.extra@[i].b64@ == base64_standard(
                capture.extra_formats@[i].1@,
            ),
        p.staged@.len() == 0,
{
    let hdrop_b64 = match &capture.hdrop_raw {
        Some(b) => Some(base64_encode(b.as_slice())),
        None => None,
    };
    let mut extra: Vec<FormatBlob> = Vec::new();
    let mut i: usize = 0;
    while i < capture.extra_formats.len()
        invariant
            i <= capture.extra_formats@.len(),
            extra@.len() == i,
            forall|j: int|
                0 <= j < capture.extra_formats@.len() ==> 4 * ((
                #[trigger] capture.extra_formats@[j]).1@.len() + 2) / 3 <= usize::MAX,
            forall|j: int|
                0 <= j < i ==> (#[trigger] extra@[j]).name@ == capture.extra_formats@[j].0@
                    && extra@[j].b64@ == base64_standard(capture.extra_formats@[j].1@),
        decreases capture.extra_formats.len() - i,
    {
        let (name, data) = &capture.extra_formats[i];
        let blob = FormatBlob { name: name.clone(), b64: base64_encode(data.as_slice()) };
        extra.push(blob);
        i += 1;
    }
    FilePayload { hdrop_b64, extra, staged: Vec::new() }
}

/// The size limit for staging: the configured one, or the default when it is zero.
pub fn stage_limit(max_stage_bytes: u64) -> (r: u64)
    ensures
        r == if max_stage_bytes > 0 {
            max_stage_bytes
        } else {
            DEFAULT_MAX_STAGE_BYTES
        },
{
    if max_stage_bytes > 0 {
        max_stage_bytes
    } else {
        DEFAULT_MAX_STAGE_BYTES
    }
}

pub open spec fn file_group_descriptor() -> Seq<char> {
    seq![
        'F', 'i', 'l', 'e', 'G', 'r', 'o', 'u', 'p', 'D', 'e', 's', 'c', 'r', 'i', 'p', 't',
        'o', 'r',
    ]
}

pub open spec fn file_contents() -> Seq<char> {
    seq!['F', 'i', 'l', 'e', 'C', 'o', 'n', 't', 'e', 'n', 't', 's']
}

fn file_group_descriptor_chars() -> (v: Vec<char>)
    ensures
        v@ == file_group_descriptor(),
{
    let v = vec![
        'F', 'i', 'l', 'e', 'G', 'r', 'o', 'u', 'p', 'D', 'e', 's', 'c', 'r', 'i', 'p', 't',
        'o', 'r',
    ];
    assert(v@ =~= file_group_descriptor());
    v
}

/// A format that describes virtual files (files with no path of their own).
pub fn is_virtual_file_format(name: &str) -> (r: bool)
    ensures
        r == contains_seq(name@, file_group_descriptor()),
{
    let n = chars_of(name);
    let p = file_group_descriptor_chars();
    match find_chars(n.as_slice(), p.as_slice()) {
        Some(_) => true,
        None => false,
    }
}

/// A companion format read from the clipboard is kept unless it is the file
/// contents stream, empty, or over the size limit.
pub fn keep_extra_format(name: &str, len: usize) -> (r: bool)
    ensures
        r == (name@ != file_contents() && len > 0 && len <= MAX_EXTRA_FORMAT_BYTES),
{
    let n = chars_of(name);
    let fc = vec!['F', 'i', 'l', 'e', 'C', 'o', 'n', 't', 'e', 'n', 't', 's'];
    assert(fc@ =~= file_contents());
    let same = crate::text::chars_eq(n.as_slice(), fc.as_slice());
    !same && len > 0 && len <= MAX_EXTRA_FORMAT_BYTES
}

/// A capture is kept when it names files or carries a virtual-file format; an
/// empty drop list counts as none.
pub fn assemble_capture(
    paths: Vec<String>,
    hdrop_raw: Option<Vec<u8>>,
    extra_formats: Vec<(String, Vec<u8>)>,
) -> (r: Option<FileCaptureData>)
    ensures
        r is Some <==> (paths@.len() > 0 || exists|i: int|
            0 <= i < extra_formats@.len() && contains_seq(
                (#[trigger] extra_formats@[i]).0@,
                file_group_descriptor(),
            )),
        r matches Some(c) ==> c.paths@ == paths@ && c.extra_formats@ == extra_formats@ && (
        match hdrop_raw {
            Some(b) => if b@.len() > 0 {
                c.hdrop_raw == Some(b)
            } else {
                c.hdrop_raw is None
            },
            None => c.hdrop_raw is None,
        }),
{
    let mut has_virtual = false;
    let mut i: usize = 0;
    while i < extra_formats.len()
        invariant
            i <= extra_formats@.len(),
            has_virtual == exists|j: int|
                0 <= j < i && contains_seq(
                    (#[trigger] extra_formats@[j]).0@,
                    file_group_descriptor(),
                ),
        decreases extra_formats.len() - i,
    {
        if is_virtual_file_format(extra_formats[i].0.as_str()) {
            has_virtual = true;
        }
        i += 1;
    }
    if paths.len() == 0 && !has_virtual {
        return None;
    }
    let hdrop_raw = match hdrop_raw {
        Some(b) => if b.len() > 0 {
            Some(b)
        } else {
            None
        },
        None => None,
    };
    Some(FileCaptureData { paths, hdrop_raw, extra_formats })
}

/// The name of the staged copy of `path`: the first eight hex digits of the BLAKE3
/// digest of the path's UTF-8 bytes, an underscore, and the file's own name (or
/// `file` when it has none).
pub fn staged_file_name(path: &str, file_name: Option<&str>) -> (out: String)
    ensures
        out@ == crate::hashing::blake3_hex_digest(path.spec_bytes()).take(8) + seq!['_'] + match file_name {
            Some(n) => n@,
            None => seq!['f', 'i', 'l', 'e'],
        },
{
    let hex = blake3_hex(path.as_bytes());
    let hex_chars = chars_of(hex.as_str());
    let mut out_chars: Vec<char> = Vec::new();
    let mut i: usize = 0;
    while i < 8
        invariant
            i <= 8,
            hex_chars@.len() == 64,
            out_chars@ == hex_chars@.take(i as int),
        decreases 8 - i,
    {
        out_chars.push(hex_chars[i]);
        i += 1;
        assert(out_chars@ =~= hex_chars@.take(i as int));
    }
    out_chars.push('_');
    let name = match file_name {
        Some(n) => chars_of(n),
        None => vec!['f', 'i', 'l', 'e'],
    };
    let ghost base = out_chars@;
    let mut j: usize = 0;
    while j < name.len()
        invariant
            j <= name@.len(),
            out_chars@ == base + name@.take(j as int),
        decreases name.len() - j,
    {
        out_chars.push(name[j]);
        j += 1;
        assert(out_chars@ =~= base + name@.take(j as int));
    }
    assert(name@.take(j as int) =~= name@);
    string_of(out_chars.as_slice())
}

// ------------------------------------------------------------------ laws

/// Dropping repeats leaves no element twice.
pub proof fn lemma_dedup_no_duplicates(s: Seq<Seq<char>>)
    ensures
        dedup_seq(s).no_duplicates(),
    decreases s.len(),
{
    if s.len() > 0 {
        lemma_dedup_no_duplicates(s.drop_last());
    }
}

/// Dropping repeats keeps every element that occurs, and adds none.
pub proof fn lemma_dedup_same_elements(s: Seq<Seq<char>>, x: Seq<char>)
    ensures
        dedup_seq(s).contains(x) <==> s.contains(x),
    decreases s.len(),
{
    if s.len() > 0 {
        let t = s.drop_last();
        let y = s.last();
        let d = dedup_seq(t);
        lemma_dedup_same_elements(t, x);
        assert(s =~= t.push(y));
        lemma_push_contains(t, y, x);
        lemma_push_contains(d, y, x);
        if y == x && d.contains(y) {
            assert(d.contains(x));
        }
    }
}

proof fn lemma_push_contains(t: Seq<Seq<char>>, y: Seq<char>, x: Seq<char>)
    ensures
        t.push(y).contains(x) <==> (t.contains(x) || y == x),
{
    if t.contains(x) {
        let k = choose|k: int| 0 <= k < t.len() && t[k] == x;
        assert(t.push(y)[k] == x);
    }
    if y == x {
        assert(t.push(y)[t.len() as int] == x);
    }
    if t.push(y).contains(x) {
        let k = choose|k: int| 0 <= k < t.push(y).len() && t.push(y)[k] == x;
        if k < t.len() {
            assert(t[k] == x);
        }
    }
}

/// Merged file paths never repeat a path, and hold exactly the paths that some
/// item resolves to.
pub proof fn lemma_merge_file_paths_dedupes(
    rs: Seq<Seq<Seq<char>>>,
    out: Seq<Seq<char>>,
    x: Seq<char>,
)
    requires
        out == dedup_seq(concat_all(rs)),
    ensures
        out.no_duplicates(),
        out.contains(x) <==> concat_all(rs).contains(x),
{
    lemma_dedup_no_duplicates(concat_all(rs));
    lemma_dedup_same_elements(concat_all(rs), x);
}

/// A resolution keeps the number and the order of the paths: each output path is the
/// input path itself or the staged copy recorded for it.
pub proof fn lemma_resolution_keeps_positions(
    paths: Seq<Seq<char>>,
    payload: Option<FilePayload>,
    r: Seq<Seq<char>>,
    i: int,
)
    requires
        resolves_to(paths, payload, r),
        0 <= i < paths.len(),
    ensures
        r.len() == paths.len(),
        r[i] == paths[i] || Some(r[i]) == staged_copy(payload, paths[i]),
{
}

} // verus!
