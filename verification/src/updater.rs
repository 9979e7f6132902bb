//! Update checks against the published releases: which releases are newer than the
//! running version, which installer fits the machine, and the combined notes.
use vstd::prelude::*;
use crate::merge_paste::join_with;
use crate::numbers::{parse_u32_chars, parse_u32_spec};
use crate::text::{
    append_chars, char_views, chars_eq, chars_of, ends_with, split_chars, split_on, string_of,
    trim, trim_chars,
};

verus! {

/// A published release, as the release service lists it.
#[derive(Debug, Clone)]
pub struct Release {
    pub tag_name: String,
    pub body: Option<String>,
    pub published_at: Option<String>,
    pub assets: Vec<ReleaseAsset>,
}

/// A file attached to a release.
#[derive(Debug, Clone)]
pub struct ReleaseAsset {
    pub name: String,
    pub browser_download_url: String,
    pub size: u64,
}

/// The outcome of an update check.
#[derive(Debug, Clone, PartialEq, Eq)]
pub struct UpdateInfo {
    pub has_update: bool,
    pub latest_version: String,
    pub current_version: String,
    pub release_notes: String,
    pub download_url: String,
    pub file_name: String,
    pub file_size: u64,
    pub published_at: String,
}

/// `s` without its leading `v` characters.
pub open spec fn strip_v(s: Seq<char>) -> Seq<char>
    decreases s.len(),
{
    if s.len() > 0 && s[0] == 'v' {
        strip_v(s.skip(1))
    } else {
        s
    }
}

/// The numbers among the dot-separated pieces, in order; pieces that are not a `u32`
/// are skipped.
pub open spec fn numbers_of(pieces: Seq<Seq<char>>) -> Seq<u32>
    decreases pieces.len(),
{
    if pieces.len() == 0 {
        seq![]
    } else {
        let rest = numbers_of(pieces.drop_last());
        match parse_u32_spec(pieces.last()) {
            Some(v) => rest.push(v),
            None => rest,
        }
    }
}

/// The numbers of a version such as `v1.2.10`.
pub open spec fn version_numbers(v: Seq<char>) -> Seq<u32> {
    numbers_of(split_on(strip_v(v), '.'))
}

/// `a` comes before `b` in lexicographic order (a proper prefix comes first).
pub open spec fn lex_less(a: Seq<u32>, b: Seq<u32>) -> bool
    decreases a.len(),
{
    if a.len() == 0 {
        b.len() > 0
    } else if b.len() == 0 {
        false
    } else if a[0] != b[0] {
        a[0] < b[0]
    } else {
        lex_less(a.drop_first(), b.drop_first())
    }
}

/// `latest` is a strictly later version than `current`.
pub open spec fn is_newer_spec(latest: Seq<char>, current: Seq<char>) -> bool {
    lex_less(version_numbers(current), version_numbers(latest))
}

fn strip_v_chars(s: &[char]) -> (out: Vec<char>)
    ensures
        out@ == strip_v(s@),
{
    let mut i: usize = 0;
    assert(s@.skip(0) =~= s@);
    while i < s.len() && s[i] == 'v'
        invariant
            i <= s@.len(),
            strip_v(s@) == strip_v(s@.skip(i as int)),
        decreases s.len() - i,
    {
        assert(s@.skip(i as int).skip(1) =~= s@.skip(i + 1));
        i += 1;
    }
    let out = crate::text::copy_chars(&s[i..s.len()]);
    assert(out@ =~= s@.skip(i as int));
    out
}

/// The numbers of a version string.
pub fn version_numbers_of(v: &str) -> (out: Vec<u32>)
    ensures
        out@ == version_numbers(v@),
{
    let c = chars_of(v);
    let stripped = strip_v_chars(c.as_slice());
    let pieces = split_chars(stripped.as_slice(), '.');
    let ghost ps = split_on(stripped@, '.');
    let mut out: Vec<u32> = Vec::new();
    let mut i: usize = 0;
    while i < pieces.len()
        invariant
            i <= pieces@.len(),
            char_views(pieces@) == ps,
            out@ == numbers_of(ps.take(i as int)),
        decreases pieces.len() - i,
    {
        assert(ps.take(i + 1).drop_last() =~= ps.take(i as int));
        assert(ps.take(i + 1).last() == pieces@[i as int]@);
        match parse_u32_chars(pieces[i].as_slice()) {
            Some(n) => out.push(n),
            None => {},
        }
        i += 1;
    }
    assert(ps.take(i as int) =~= ps);
    out
}

fn lex_less_vec(a: &Vec<u32>, b: &Vec<u32>) -> (r: bool)
    ensures
        r == lex_less(a@, b@),
{
    let mut i: usize = 0;
    assert(a@.skip(0) =~= a@);
    assert(b@.skip(0) =~= b@);
    while i < a.len() && i < b.len() && a[i] == b[i]
        invariant
            i <= a@.len(),
            i <= b@.len(),
            lex_less(a@, b@) == lex_less(a@.skip(i as int), b@.skip(i as int)),
        decreases a.len() - i,
    {
        assert(a@.skip(i as int).drop_first() =~= a@.skip(i + 1));
        assert(b@.skip(i as int).drop_first() =~= b@.skip(i + 1));
        i += 1;
    }
    if i == a.len() {
        i < b.len()
    } else if i == b.len() {
        false
    } else {
        a[i] < b[i]
    }
}

/// Whether `latest` is a strictly later version than `current`, comparing their
/// numbers in order (leading `v`s ignored, pieces that are not numbers skipped).
pub fn is_newer(latest: &str, current: &str) -> (r: bool)
    ensures
        r == is_newer_spec(latest@, current@),
{
    let l = version_numbers_of(latest);
    let c = version_numbers_of(current);
    lex_less_vec(&c, &l)
}

// ------------------------------------------------------------------ check result

/// How many releases, from the first, are newer than `current` (the list is newest
/// first, so the newer ones lead it).
pub open spec fn newer_prefix(tags: Seq<Seq<char>>, current: Seq<char>, k: int) -> int
    decreases tags.len() - k,
{
    if k < 0 || k >= tags.len() {
        k
    } else if is_newer_spec(strip_v(tags[k]), current) {
        newer_prefix(tags, current, k + 1)
    } else {
        k
    }
}

pub open spec fn tags(releases: Seq<Release>) -> Seq<Seq<char>> {
    releases.map_values(|r: Release| r.tag_name@)
}

/// The heading and notes of one release: `## v<version>`, then its notes (trimmed)
/// on the next line when it has any.
pub open spec fn release_note(r: Release) -> Seq<char> {
    let notes = match r.body {
        Some(b) => trim(b@),
        None => seq![],
    };
    if notes.len() == 0 {
        "## v"@ + strip_v(r.tag_name@)
    } else {
        "## v"@ + strip_v(r.tag_name@) + seq!['\n'] + notes
    }
}

/// The installer name suffix for a processor architecture.
pub open spec fn arch_suffix_spec(arch: Seq<char>) -> Seq<char> {
    if arch == "aarch64"@ {
        "arm64-setup.exe"@
    } else {
        "x64-setup.exe"@
    }
}

/// The installer name suffix for a processor architecture.
pub fn arch_suffix(arch: &str) -> (s: String)
    ensures
        s@ == arch_suffix_spec(arch@),
{
    let a = chars_of(arch);
    let arm = chars_of("aarch64");
    if chars_eq(a.as_slice(), arm.as_slice()) {
        "arm64-setup.exe".to_owned()
    } else {
        "x64-setup.exe".to_owned()
    }
}

/// The first asset whose name ends with `suffix`.
pub open spec fn asset_index_from(assets: Seq<ReleaseAsset>, suffix: Seq<char>, k: int) -> Option<
    int,
>
    decreases assets.len() - k,
{
    if k < 0 || k >= assets.len() {
        None
    } else if ends_with(assets[k].name@, suffix) {
        Some(k)
    } else {
        asset_index_from(assets, suffix, k + 1)
    }
}

/// The message when the newest release has no installer for this machine.
pub open spec fn no_installer_message(suffix: Seq<char>) -> Seq<char> {
    "未找到适用于当前架构("@ + suffix + ")的安装包"@
}

fn newer_count(releases: &[Release], current: &str) -> (n: usize)
    ensures
        n == newer_prefix(tags(releases@), current@, 0),
        n <= releases@.len(),
{
    let ghost ts = tags(releases@);
    let mut i: usize = 0;
    while i < releases.len()
        invariant
            i <= releases@.len(),
            ts == tags(releases@),
            newer_prefix(ts, current@, 0) == newer_prefix(ts, current@, i as int),
        decreases releases.len() - i,
    {
        let t = chars_of(releases[i].tag_name.as_str());
        let stripped = string_of(strip_v_chars(t.as_slice()).as_slice());
        assert(ts[i as int] == releases@[i as int].tag_name@);
        if !is_newer(stripped.as_str(), current) {
            return i;
        }
        i += 1;
    }
    i
}

fn find_asset(assets: &Vec<ReleaseAsset>, suffix: &str) -> (r: Option<usize>)
    ensures
        match r {
            Some(k) => asset_index_from(assets@, suffix@, 0) == Some(k as int) && k < assets@.len(),
            None => asset_index_from(assets@, suffix@, 0) is None,
        },
{
    let sc = chars_of(suffix);
    let mut i: usize = 0;
    while i < assets.len()
        invariant
            i <= assets@.len(),
            sc@ == suffix@,
            asset_index_from(assets@, suffix@, 0) == asset_index_from(assets@, suffix@, i as int),
        decreases assets.len() - i,
    {
        let n = chars_of(assets[i].name.as_str());
        if crate::text::ends_with_chars(n.as_slice(), sc.as_slice()) {
            return Some(i);
        }
        i += 1;
    }
    None
}

fn note_of(r: &Release) -> (s: String)
    ensures
        s@ == release_note(*r),
{
    let t = chars_of(r.tag_name.as_str());
    let ver = strip_v_chars(t.as_slice());
    let notes: Vec<char> = match &r.body {
        Some(b) => {
            let bc = chars_of(b.as_str());
            trim_chars(bc.as_slice())
        },
        None => Vec::new(),
    };
    let mut out = chars_of("## v");
    append_chars(&mut out, ver.as_slice());
    if notes.len() > 0 {
        out.push('\n');
        append_chars(&mut out, notes.as_slice());
    }
    string_of(out.as_slice())
}

/// The outcome of an update check from the published releases (newest first), the
/// running version, and the installer suffix for this machine.
///
/// With no newer release there is no update, and the latest version is that of the
/// first release (or the running one when there is none). Otherwise the newest
/// release's installer is offered, with the notes of every newer release, newest
/// first, separated by blank lines; an error names the suffix when it has no
/// installer.
pub fn update_info_from(releases: &[Release], current: &str, suffix: &str) -> (r: Result<
    UpdateInfo,
    String,
>)
    ensures
        ({
            let n = newer_prefix(tags(releases@), current@, 0);
            if n == 0 {
                r is Ok && !r->Ok_0.has_update && r->Ok_0.latest_version@ == (if releases@.len()
                    > 0 {
                    strip_v(releases@[0].tag_name@)
                } else {
                    current@
                }) && r->Ok_0.current_version@ == current@ && r->Ok_0.release_notes@.len() == 0
                    && r->Ok_0.download_url@.len() == 0 && r->Ok_0.file_name@.len() == 0
                    && r->Ok_0.file_size == 0 && r->Ok_0.published_at@.len() == 0
            } else {
                let latest = releases@[0];
                match asset_index_from(latest.assets@, suffix@, 0) {
                    None => r is Err && r->Err_0@ == no_installer_message(suffix@),
                    Some(k) => r is Ok && r->Ok_0.has_update && r->Ok_0.latest_version@
                        == strip_v(latest.tag_name@) && r->Ok_0.current_version@ == current@
                        && r->Ok_0.download_url@ == latest.assets@[k].browser_download_url@
                        && r->Ok_0.file_name@ == latest.assets@[k].name@ && r->Ok_0.file_size
                        == latest.assets@[k].size && r->Ok_0.published_at@ == (
                    match latest.published_at {
                        Some(p) => p@,
                        None => seq![],
                    }) && r->Ok_0.release_notes@ == join_with(
                        releases@.take(n).map_values(|x: Release| release_note(x)),
                        "\n\n"@,
                    ),
                }
            }
        }),
{
    let n = newer_count(releases, current);
    if n == 0 {
        let latest_version = if releases.len() > 0 {
            let t = chars_of(releases[0].tag_name.as_str());
            string_of(strip_v_chars(t.as_slice()).as_slice())
        } else {
            current.to_owned()
        };
        return Ok(
            UpdateInfo {
                has_update: false,
                latest_version,
                current_version: current.to_owned(),
                release_notes: String::new(),
                download_url: String::new(),
                file_name: String::new(),
                file_size: 0,
                published_at: String::new(),
            },
        );
    }
    let latest = &releases[0];
    let k = match find_asset(&latest.assets, suffix) {
        None => {
            let mut m = chars_of("未找到适用于当前架构(");
            let sc = chars_of(suffix);
            append_chars(&mut m, sc.as_slice());
            let tail = chars_of(")的安装包");
            append_chars(&mut m, tail.as_slice());
            return Err(string_of(m.as_slice()));
        },
        Some(k) => k,
    };
    let asset = &latest.assets[k];
    let mut notes: Vec<String> = Vec::new();
    let ghost all = releases@.take(n as int).map_values(|x: Release| release_note(x));
    let mut i: usize = 0;
    while i < n
        invariant
            i <= n <= releases@.len(),
            all == releases@.take(n as int).map_values(|x: Release| release_note(x)),
            crate::text::string_views(notes@) == all.take(i as int),
        decreases n - i,
    {
        let note = note_of(&releases[i]);
        let ghost before = notes@;
        notes.push(note);
        proof {
            crate::text::lemma_string_views_push(before, note);
            assert(all.take(i + 1) =~= all.take(i as int).push(note@));
        }
        i += 1;
    }
    assert(all.take(n as int) =~= all);
    let t = chars_of(latest.tag_name.as_str());
    let latest_version = string_of(strip_v_chars(t.as_slice()).as_slice());
    let release_notes = crate::merge_paste::join_strings(notes.as_slice(), "\n\n");
    let published_at = match &latest.published_at {
        Some(p) => p.clone(),
        None => String::new(),
    };
    Ok(
        UpdateInfo {
            has_update: true,
            latest_version,
            current_version: current.to_owned(),
            release_notes,
            download_url: asset.browser_download_url.clone(),
            file_name: asset.name.clone(),
            file_size: asset.size,
            published_at,
        },
    )
}

// ------------------------------------------------------------------ laws

/// No version is newer than itself.
pub proof fn lemma_is_newer_irreflexive(v: Seq<char>)
    ensures
        !is_newer_spec(v, v),
{
    lemma_lex_less_irreflexive(version_numbers(v));
}

proof fn lemma_lex_less_irreflexive(a: Seq<u32>)
    ensures
        !lex_less(a, a),
    decreases a.len(),
{
    if a.len() > 0 {
        lemma_lex_less_irreflexive(a.drop_first());
    }
}

/// Of two versions, at most one is newer than the other.
pub proof fn lemma_is_newer_asymmetric(a: Seq<char>, b: Seq<char>)
    ensures
        !(is_newer_spec(a, b) && is_newer_spec(b, a)),
{
    lemma_lex_less_asymmetric(version_numbers(a), version_numbers(b));
}

proof fn lemma_lex_less_asymmetric(a: Seq<u32>, b: Seq<u32>)
    ensures
        !(lex_less(a, b) && lex_less(b, a)),
    decreases a.len(),
{
    if a.len() > 0 && b.len() > 0 && a[0] == b[0] {
        lemma_lex_less_asymmetric(a.drop_first(), b.drop_first());
    }
}

/// Being newer is transitive.
pub proof fn lemma_is_newer_transitive(a: Seq<char>, b: Seq<char>, c: Seq<char>)
    requires
        is_newer_spec(a, b),
        is_newer_spec(b, c),
    ensures
        is_newer_spec(a, c),
{
    lemma_lex_less_transitive(version_numbers(c), version_numbers(b), version_numbers(a));
}

proof fn lemma_lex_less_transitive(a: Seq<u32>, b: Seq<u32>, c: Seq<u32>)
    requires
        lex_less(a, b),
        lex_less(b, c),
    ensures
        lex_less(a, c),
    decreases a.len(),
{
    if a.len() > 0 && b.len() > 0 && c.len() > 0 && a[0] == b[0] && b[0] == c[0] {
        lemma_lex_less_transitive(a.drop_first(), b.drop_first(), c.drop_first());
    }
}

} // verus!
