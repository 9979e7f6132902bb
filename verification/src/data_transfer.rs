//! Rules for backup archives: which entry names may be extracted, and where.
//!
//! Entry names are read with the path rules of Windows, where the application runs:
//! both `/` and `\` separate components, a leading separator is a root, and a
//! leading drive letter with a colon is a prefix.
use vstd::prelude::*;
use crate::text::{char_views, chars_of, string_of};

verus! {

pub open spec fn is_path_sep(c: char) -> bool {
    c == '/' || c == '\\'
}

pub open spec fn is_ascii_alpha(c: char) -> bool {
    ('a' <= c <= 'z') || ('A' <= c <= 'Z')
}

/// The name starts at a root (`\x` or `/x`) or with a drive (`C:`): it is anchored
/// outside the extraction directory.
pub open spec fn anchored(s: Seq<char>) -> bool {
    (s.len() > 0 && is_path_sep(s[0])) || (s.len() >= 2 && is_ascii_alpha(s[0]) && s[1] == ':')
}

/// The pieces of `s` between separators (empty pieces included).
pub open spec fn pieces(s: Seq<char>) -> Seq<Seq<char>>
    decreases s.len(),
{
    if s.len() == 0 {
        seq![seq![]]
    } else {
        let p = pieces(s.drop_last());
        if is_path_sep(s.last()) {
            p.push(seq![])
        } else {
            p.update(p.len() - 1, p.last().push(s.last()))
        }
    }
}

pub open spec fn dot() -> Seq<char> {
    seq!['.']
}

pub open spec fn dot_dot() -> Seq<char> {
    seq!['.', '.']
}

/// A piece that names a component: not empty and not `.`.
pub open spec fn is_named(p: Seq<char>) -> bool {
    p.len() > 0 && p != dot()
}

/// The pieces that name components, in order.
pub open spec fn named_pieces(ps: Seq<Seq<char>>) -> Seq<Seq<char>> {
    ps.filter(|p: Seq<char>| is_named(p))
}

/// `segs` joined with `/`.
pub open spec fn join_slash(segs: Seq<Seq<char>>) -> Seq<char>
    decreases segs.len(),
{
    if segs.len() == 0 {
        seq![]
    } else if segs.len() == 1 {
        segs[0]
    } else {
        join_slash(segs.drop_last()) + seq!['/'] + segs.last()
    }
}

/// The components that an archive entry name is extracted to: none when the name is
/// anchored, climbs with `..`, or names nothing; else its named components.
pub open spec fn safe_components(name: Seq<char>) -> Option<Seq<Seq<char>>> {
    let ps = pieces(name);
    let segs = named_pieces(ps);
    if anchored(name) || ps.contains(dot_dot()) || segs.len() == 0 {
        None
    } else {
        Some(segs)
    }
}

fn is_dot_dot(p: &Vec<char>) -> (r: bool)
    ensures
        r == (p@ == dot_dot()),
{
    if p.len() == 2 && p[0] == '.' && p[1] == '.' {
        assert(p@ =~= dot_dot());
        true
    } else {
        false
    }
}

fn named(p: &Vec<char>) -> (r: bool)
    ensures
        r == is_named(p@),
{
    if p.len() == 0 {
        false
    } else if p.len() == 1 && p[0] == '.' {
        assert(p@ =~= dot());
        false
    } else {
        assert(p@ != dot() ==> true);
        if p.len() != 1 {
            assert(p@.len() != dot().len());
        }
        true
    }
}

/// The components of an archive entry name, as `safe_components` says.
pub fn safe_component_list(name: &str) -> (r: Option<Vec<Vec<char>>>)
    ensures
        match r {
            Some(v) => safe_components(name@) == Some(char_views(v@)),
            None => safe_components(name@) is None,
        },
{
    let s = chars_of(name);
    let n = s.len();
    if (n > 0 && (s[0] == '/' || s[0] == '\\')) || (n >= 2 && ((s[0] >= 'a' && s[0] <= 'z') || (
    s[0] >= 'A' && s[0] <= 'Z')) && s[1] == ':') {
        return None;
    }
    // the pieces before the current one, and the current one
    let mut segs: Vec<Vec<char>> = Vec::new();
    let mut climbs = false;
    let mut cur: Vec<char> = Vec::new();
    let ghost mut done: Seq<Seq<char>> = seq![];
    let mut i: usize = 0;
    while i < n
        invariant
            i <= n == s@.len(),
            pieces(s@.take(i as int)) == done.push(cur@),
            char_views(segs@) == named_pieces(done),
            climbs == done.contains(dot_dot()),
        decreases n - i,
    {
        let c = s[i];
        let ghost before = s@.take(i as int);
        assert(s@.take(i + 1).drop_last() =~= before);
        assert(s@.take(i + 1).last() == c);
        if c == '/' || c == '\\' {
            let ghost finished = cur@;
            proof {
                assert(done.push(finished).drop_last() =~= done);
                assert(done.push(finished).last() == finished);
                lemma_contains_push(done, finished, dot_dot());
                reveal(Seq::filter);
            }
            if is_dot_dot(&cur) {
                climbs = true;
            }
            if named(&cur) {
                let ghost old_segs = segs@;
                segs.push(cur);
                assert(char_views(segs@) =~= char_views(old_segs).push(finished));
            }
            cur = Vec::new();
            proof {
                done = done.push(finished);
            }
            assert(pieces(s@.take(i + 1)) =~= done.push(cur@));
        } else {
            cur.push(c);
            assert(pieces(s@.take(i + 1)) =~= done.push(cur@));
        }
        i += 1;
    }
    assert(s@.take(n as int) =~= s@);
    let ghost finished = cur@;
    proof {
        assert(done.push(finished).drop_last() =~= done);
        assert(done.push(finished).last() == finished);
        lemma_contains_push(done, finished, dot_dot());
        reveal(Seq::filter);
    }
    if is_dot_dot(&cur) {
        climbs = true;
    }
    if named(&cur) {
        let ghost old_segs = segs@;
        segs.push(cur);
        assert(char_views(segs@) =~= char_views(old_segs).push(
            finished,
        ));
    }
    if climbs || segs.len() == 0 {
        return None;
    }
    Some(segs)
}

proof fn lemma_contains_push(t: Seq<Seq<char>>, y: Seq<char>, x: Seq<char>)
    ensures
        t.push(y).contains(x) <==> (t.contains(x) || y == x),
{
    if t.contains(x) {
        let k = choose|k: int| 0 <= k < t.len() && t[k] == x;
        assert(t.push(y)[k] == x);
    }
    if y == x {
        assert(t.push(y)[t.len() as int] == x);
    }
    if t.push(y).contains(x) {
        let k = choose|k: int| 0 <= k < t.push(y).len() && t.push(y)[k] == x;
        if k < t.len() {
            assert(t[k] == x);
        }
    }
}

/// The relative path, joined with `/`, that an archive entry named `name` may be
/// extracted to; `None` for a name that is anchored, climbs with `..`, or names
/// nothing.
pub fn sanitize_zip_relative_path(name: &str) -> (r: Option<String>)
    ensures
        match safe_components(name@) {
            Some(segs) => r is Some && r->0@ == join_slash(segs),
            None => r is None,
        },
{
    match safe_component_list(name) {
        None => None,
        Some(segs) => {
            let ghost views = char_views(segs@);
            let mut out: Vec<char> = Vec::new();
            let mut i: usize = 0;
            while i < segs.len()
                invariant
                    i <= segs@.len(),
                    views == char_views(segs@),
                    out@ == join_slash(views.take(i as int)),
                decreases segs.len() - i,
            {
                let ghost prev = out@;
                if i > 0 {
                    out.push('/');
                }
                let seg = &segs[i];
                let ghost base = out@;
                let mut j: usize = 0;
                while j < seg.len()
                    invariant
                        j <= seg@.len(),
                        out@ == base + seg@.take(j as int),
                    decreases seg.len() - j,
                {
                    out.push(seg[j]);
                    j += 1;
                    assert(out@ =~= base + seg@.take(j as int));
                }
                assert(seg@.take(j as int) =~= seg@);
                assert(views.take(i + 1).drop_last() =~= views.take(i as int));
                assert(views.take(i + 1).last() == seg@);
                if i == 0 {
                    assert(views.take(1)[0] == seg@);
                    assert(out@ =~= join_slash(views.take(1)));
                } else {
                    assert(out@ =~= prev + seq!['/'] + seg@);
                }
                i += 1;
            }
            assert(views.take(i as int) =~= views);
            Some(string_of(out.as_slice()))
        },
    }
}

/// Where a backup archive entry belongs.
#[derive(Debug, Clone, Copy, PartialEq, Eq)]
pub enum BackupEntry {
    /// `clipboard.db`
    Database,
    /// `settings.json`
    Settings,
    /// a file under `images`, `icons` or `staged`
    Resource,
}

/// Why a backup archive entry is refused.
#[derive(Debug, Clone, Copy, PartialEq, Eq)]
pub enum BackupEntryError {
    /// The name is anchored, climbs with `..` or names nothing.
    UnsafePath,
    /// The name is safe but not one the backup may hold.
    NotAllowed,
}

pub open spec fn clipboard_db() -> Seq<char> {
    seq!['c', 'l', 'i', 'p', 'b', 'o', 'a', 'r', 'd', '.', 'd', 'b']
}

pub open spec fn settings_json() -> Seq<char> {
    seq!['s', 'e', 't', 't', 'i', 'n', 'g', 's', '.', 'j', 's', 'o', 'n']
}

/// The resource directories a backup holds.
pub open spec fn is_resource_root(p: Seq<char>) -> bool {
    p == seq!['i', 'm', 'a', 'g', 'e', 's'] || p == seq!['i', 'c', 'o', 'n', 's'] || p == seq![
        's',
        't',
        'a',
        'g',
        'e',
        'd',
    ]
}

/// How a backup archive entry named `name` is treated.
pub open spec fn backup_entry_spec(name: Seq<char>) -> Result<BackupEntry, BackupEntryError> {
    match safe_components(name) {
        None => Err(BackupEntryError::UnsafePath),
        Some(segs) => if segs == seq![clipboard_db()] {
            Ok(BackupEntry::Database)
        } else if segs == seq![settings_json()] {
            Ok(BackupEntry::Settings)
        } else if is_resource_root(segs[0]) {
            Ok(BackupEntry::Resource)
        } else {
            Err(BackupEntryError::NotAllowed)
        },
    }
}

fn chars_equal_literal(p: &Vec<char>, lit: &[char]) -> (r: bool)
    ensures
        r == (p@ == lit@),
{
    crate::text::chars_eq(p.as_slice(), lit)
}

/// Classifies one entry of a backup archive: the database, the settings, or a file
/// under one of the resource directories; anything else is refused.
pub fn backup_entry_kind(name: &str) -> (r: Result<BackupEntry, BackupEntryError>)
    ensures
        r == backup_entry_spec(name@),
{
    let segs = match safe_component_list(name) {
        None => return Err(BackupEntryError::UnsafePath),
        Some(v) => v,
    };
    let ghost views = char_views(segs@);
    let db = ['c', 'l', 'i', 'p', 'b', 'o', 'a', 'r', 'd', '.', 'd', 'b'];
    let settings = ['s', 'e', 't', 't', 'i', 'n', 'g', 's', '.', 'j', 's', 'o', 'n'];
    let images = ['i', 'm', 'a', 'g', 'e', 's'];
    let icons = ['i', 'c', 'o', 'n', 's'];
    let staged = ['s', 't', 'a', 'g', 'e', 'd'];
    assert(db@ =~= clipboard_db());
    assert(settings@ =~= settings_json());
    assert(images@ =~= seq!['i', 'm', 'a', 'g', 'e', 's']);
    assert(icons@ =~= seq!['i', 'c', 'o', 'n', 's']);
    assert(staged@ =~= seq!['s', 't', 'a', 'g', 'e', 'd']);
    let first = &segs[0];
    assert(views[0] == first@);
    if segs.len() == 1 && chars_equal_literal(first, &db) {
        assert(views =~= seq![clipboard_db()]);
        return Ok(BackupEntry::Database);
    }
    if segs.len() == 1 && chars_equal_literal(first, &settings) {
        assert(views =~= seq![settings_json()]);
        return Ok(BackupEntry::Settings);
    }
    assert(views != seq![clipboard_db()]) by {
        if views == seq![clipboard_db()] {
            assert(views.len() == 1 && views[0] == clipboard_db());
        }
    }
    assert(views != seq![settings_json()]) by {
        if views == seq![settings_json()] {
            assert(views.len() == 1 && views[0] == settings_json());
        }
    }
    if chars_equal_literal(first, &images) || chars_equal_literal(first, &icons)
        || chars_equal_literal(first, &staged) {
        Ok(BackupEntry::Resource)
    } else {
        Err(BackupEntryError::NotAllowed)
    }
}

/// `target` is `parent` or lies below it (the next character is `/`).
pub open spec fn same_or_descendant_spec(target: Seq<char>, parent: Seq<char>) -> bool {
    target == parent || (target.len() > parent.len() && target.take(parent.len() as int) == parent
        && target[parent.len() as int] == '/')
}

/// Whether `target` is `parent` or lies below it.
pub fn same_or_descendant(target: &str, parent: &str) -> (r: bool)
    ensures
        r == same_or_descendant_spec(target@, parent@),
{
    let t = chars_of(target);
    let p = chars_of(parent);
    if crate::text::chars_eq(t.as_slice(), p.as_slice()) {
        return true;
    }
    if t.len() <= p.len() {
        return false;
    }
    let mut i: usize = 0;
    while i < p.len()
        invariant
            i <= p@.len() < t@.len(),
            t@ == target@,
            p@ == parent@,
            forall|j: int| 0 <= j < i ==> t@[j] == p@[j],
        decreases p.len() - i,
    {
        if t[i] != p[i] {
            assert(t@.take(p@.len() as int)[i as int] != p@[i as int]);
            return false;
        }
        i += 1;
    }
    assert(t@.take(p@.len() as int) =~= p@);
    t[p.len()] == '/'
}

proof fn lemma_filter_from_source(s: Seq<Seq<char>>, i: int)
    requires
        0 <= i < named_pieces(s).len(),
    ensures
        s.contains(named_pieces(s)[i]),
        is_named(named_pieces(s)[i]),
    decreases s.len(),
{
    reveal(Seq::filter);
    let f = named_pieces(s);
    let t = s.drop_last();
    let g = named_pieces(t);
    if i < g.len() {
        lemma_filter_from_source(t, i);
        let k = choose|k: int| 0 <= k < t.len() && t[k] == g[i];
        assert(s[k] == t[k]);
        assert(f[i] == g[i]);
    } else {
        assert(f[i] == s.last());
        assert(s[s.len() - 1] == s.last());
    }
}

/// An extracted name never climbs out of the extraction directory: it is not
/// anchored, and its components are named (not empty, not `.`) and none is `..`.
pub proof fn lemma_sanitized_components_are_plain(name: Seq<char>, i: int)
    requires
        safe_components(name) is Some,
        0 <= i < safe_components(name)->0.len(),
    ensures
        is_named(safe_components(name)->0[i]),
        safe_components(name)->0[i] != dot_dot(),
        !anchored(name),
{
    let ps = pieces(name);
    lemma_filter_from_source(ps, i);
}

} // verus!
