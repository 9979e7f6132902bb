//! Decisions taken when the clipboard changes: source-application filters,
//! HTML source URLs, file names from window titles and content truncation.
use vstd::prelude::*;
use crate::text::{
    chars_of, string_of, lowercase_chars, unicode_to_lowercase, trim, trim_chars, contains_seq,
    contains_chars, contains_char, split_on, split_chars, char_views, utf8_len, utf8_width,
    utf8_width_of, lemma_utf8_len_take_step, trim_start, trim_start_at, lines_of, lines_chars,
    first_index, lemma_first_index, find_char, eq_ignore_ascii_case, eq_ignore_ascii_case_chars,
    starts_with_ci, starts_with_ci_chars, ascii_lower_seq, ascii_lower_chars, rsplit_once,
    rsplit_once_chars, last_segment, last_segment_chars, last_index, last_index_of, chars_eq,
    copy_chars, push_range,
};
use crate::dedup::{http_scheme, https_scheme};
use crate::database::{ContentType, NewClipboardItem};

verus! {

// ---------------------------------------------------------------- wildcard patterns

/// `p` (with `*` for any run of characters and `?` for one character) matches all of `t`.
pub open spec fn wildcard_matches(p: Seq<char>, t: Seq<char>) -> bool
    decreases p.len() + t.len(),
{
    if p.len() == 0 {
        t.len() == 0
    } else if p.last() == '*' {
        wildcard_matches(p.drop_last(), t) || (t.len() > 0 && wildcard_matches(p, t.drop_last()))
    } else {
        t.len() > 0 && (p.last() == '?' || p.last() == t.last()) && wildcard_matches(
            p.drop_last(),
            t.drop_last(),
        )
    }
}

/// The pattern matches the text, comparing lower-cased forms.
pub open spec fn wildcard_match_spec(pattern: Seq<char>, text: Seq<char>) -> bool {
    wildcard_matches(unicode_to_lowercase(pattern), unicode_to_lowercase(text))
}

proof fn lemma_take_last<A>(s: Seq<A>, j: int)
    requires
        0 <= j < s.len(),
    ensures
        s.take(j + 1).drop_last() == s.take(j),
        s.take(j + 1).last() == s[j],
        s.take(j + 1).len() == j + 1,
{
    assert(s.take(j + 1).drop_last() =~= s.take(j));
}

fn wildcard_match_chars(p: &[char], t: &[char]) -> (b: bool)
    ensures
        b == wildcard_matches(p@, t@),
{
    let tlen = t.len();
    let mut prev: Vec<bool> = Vec::new();
    prev.push(true);
    let mut j: usize = 0;
    while j < tlen
        invariant
            j <= tlen == t.len(),
            prev.len() == j + 1,
            forall|k: int|
                0 <= k <= j ==> #[trigger] prev@[k] == wildcard_matches(
                    p@.take(0),
                    t@.take(k),
                ),
        decreases tlen - j,
    {
        prev.push(false);
        j += 1;
    }
    let mut i: usize = 0;
    while i < p.len()
        invariant
            i <= p.len(),
            tlen == t.len(),
            prev.len() == tlen + 1,
            forall|k: int|
                0 <= k <= tlen ==> #[trigger] prev@[k] == wildcard_matches(
                    p@.take(i as int),
                    t@.take(k),
                ),
        decreases p.len() - i,
    {
        let pc = p[i];
        proof {
            lemma_take_last(p@, i as int);
        }
        let ghost pi = p@.take(i + 1);
        let mut curr: Vec<bool> = Vec::new();
        if pc == '*' {
            curr.push(prev[0]);
            let mut j: usize = 0;
            while j < tlen
                invariant
                    j <= tlen == t.len(),
                    i < p.len(),
                    pc == p@[i as int],
                    pc == '*',
                    pi == p@.take(i + 1),
                    pi.drop_last() == p@.take(i as int),
                    pi.last() == pc,
                    prev.len() == tlen + 1,
                    curr.len() == j + 1,
                    forall|k: int|
                        0 <= k <= tlen ==> #[trigger] prev@[k] == wildcard_matches(
                            p@.take(i as int),
                            t@.take(k),
                        ),
                    forall|k: int|
                        0 <= k <= j ==> #[trigger] curr@[k] == wildcard_matches(pi, t@.take(k)),
                decreases tlen - j,
            {
                proof {
                    lemma_take_last(t@, j as int);
                }
                let v = prev[j + 1] || curr[j];
                curr.push(v);
                j += 1;
            }
        } else {
            curr.push(false);
            let mut j: usize = 0;
            while j < tlen
                invariant
                    j <= tlen == t.len(),
                    i < p.len(),
                    pc == p@[i as int],
                    pc != '*',
                    pi == p@.take(i + 1),
                    pi.drop_last() == p@.take(i as int),
                    pi.last() == pc,
                    prev.len() == tlen + 1,
                    curr.len() == j + 1,
                    forall|k: int|
                        0 <= k <= tlen ==> #[trigger] prev@[k] == wildcard_matches(
                            p@.take(i as int),
                            t@.take(k),
                        ),
                    forall|k: int|
                        0 <= k <= j ==> #[trigger] curr@[k] == wildcard_matches(pi, t@.take(k)),
                decreases tlen - j,
            {
                proof {
                    lemma_take_last(t@, j as int);
                }
                let v = (pc == '?' || pc == t[j]) && prev[j];
                curr.push(v);
                j += 1;
            }
        }
        prev = curr;
        i += 1;
    }
    assert(p@.take(p.len() as int) == p@);
    assert(t@.take(tlen as int) == t@);
    prev[tlen]
}

/// Wildcard match (`*`, `?`), ignoring case.
pub fn wildcard_match(pattern: &str, text: &str) -> (b: bool)
    ensures
        b == wildcard_match_spec(pattern@, text@),
{
    let p = lowercase_chars(pattern);
    let t = lowercase_chars(text);
    wildcard_match_chars(&p, &t)
}


// ---------------------------------------------------------------- source application filter

pub open spec fn has_wildcard(f: Seq<char>) -> bool {
    f.contains('*') || f.contains('?')
}

/// A filter entry matches an application: a pattern with `*`/`?` must match the
/// whole application name, process name or process path; a plain entry must occur
/// in one of them. Both comparisons ignore case; a blank entry matches nothing.
pub open spec fn matches_app_filter_spec(
    filter: Seq<char>,
    app_name: Seq<char>,
    exe_name: Seq<char>,
    exe_path: Seq<char>,
) -> bool {
    let f = trim(filter);
    &&& f.len() > 0
    &&& if has_wildcard(f) {
        ||| wildcard_match_spec(f, app_name)
        ||| wildcard_match_spec(f, exe_name)
        ||| wildcard_match_spec(f, exe_path)
    } else {
        let fl = unicode_to_lowercase(f);
        ||| contains_seq(unicode_to_lowercase(app_name), fl)
        ||| contains_seq(unicode_to_lowercase(exe_name), fl)
        ||| contains_seq(unicode_to_lowercase(exe_path), fl)
    }
}

pub fn matches_app_filter(filter: &str, app_name: &str, exe_name: &str, exe_path: &str) -> (b:
    bool)
    ensures
        b == matches_app_filter_spec(filter@, app_name@, exe_name@, exe_path@),
{
    let f = trim_chars(&chars_of(filter));
    if f.len() == 0 {
        return false;
    }
    let fs = string_of(&f);
    if contains_char(&f, '*') || contains_char(&f, '?') {
        wildcard_match(fs.as_str(), app_name) || wildcard_match(fs.as_str(), exe_name)
            || wildcard_match(fs.as_str(), exe_path)
    } else {
        let fl = lowercase_chars(fs.as_str());
        contains_chars(&lowercase_chars(app_name), &fl) || contains_chars(
            &lowercase_chars(exe_name),
            &fl,
        ) || contains_chars(&lowercase_chars(exe_path), &fl)
    }
}

/// Application that put content on the clipboard.
#[derive(Clone, Debug)]
pub struct SourceAppInfo {
    pub app_name: String,
    pub exe_path: String,
    pub icon_cache_key: String,
    pub source_title: Option<String>,
}

/// Settings read on every clipboard change.
#[derive(Clone, Debug)]
pub struct ClipChangeSettings {
    app_filter_enabled: bool,
    app_filter_list: Option<String>,
    app_filter_mode: String,
    pub max_image_bytes: usize,
}

pub open spec fn whitelist_name() -> Seq<char> {
    seq!['w', 'h', 'i', 't', 'e', 'l', 'i', 's', 't']
}

/// Some comma-separated, non-blank entry of `list` matches the application.
pub open spec fn any_filter_entry_matches(
    list: Seq<char>,
    app_name: Seq<char>,
    exe_name: Seq<char>,
    exe_path: Seq<char>,
) -> bool {
    exists|i: int|
        0 <= i < split_on(list, ',').len() && trim(#[trigger] split_on(list, ',')[i]).len() > 0
            && matches_app_filter_spec(split_on(list, ',')[i], app_name, exe_name, exe_path)
}

/// The RGBA size of a `width` by `height` image, four bytes a pixel, saturated at
/// `u64::MAX`.
pub open spec fn rgba_size(width: u32, height: u32) -> int {
    let n = width * height * 4;
    if n > u64::MAX {
        u64::MAX as int
    } else {
        n
    }
}

impl ClipChangeSettings {
    /// Whether a clipboard image of `width` by `height` pixels is skipped: a limit is
    /// set (non-zero) and the image's RGBA size is over it.
    pub fn image_too_large(&self, width: u32, height: u32) -> (b: bool)
        ensures
            b == (self.max_image() > 0 && rgba_size(width, height) > self.max_image()),
    {
        if self.max_image_bytes == 0 {
            return false;
        }
        let w = width as u128;
        let h = height as u128;
        assert(w * h <= 0xffff_ffff * 0xffff_ffff) by (nonlinear_arith)
            requires
                w <= 0xffff_ffff,
                h <= 0xffff_ffff,
        ;
        let n: u128 = w * h * 4;
        let sat: u128 = if n > 0xffff_ffff_ffff_ffff {
            0xffff_ffff_ffff_ffff
        } else {
            n
        };
        sat > self.max_image_bytes as u128
    }

    pub closed spec fn filter_enabled(self) -> bool {
        self.app_filter_enabled
    }

    pub closed spec fn filter_list(self) -> Option<Seq<char>> {
        match self.app_filter_list {
            Some(l) => Some(l@),
            None => None,
        }
    }

    pub closed spec fn max_image(self) -> usize {
        self.max_image_bytes
    }

    pub closed spec fn filter_mode(self) -> Seq<char> {
        self.app_filter_mode@
    }

    /// Whether content from this application, whose process file name is
    /// `exe_name`, is to be ignored.
    pub open spec fn excludes(self, source: Option<SourceAppInfo>, exe_name: Seq<char>) -> bool {
        match source {
            None => false,
            Some(src) => {
                if !self.filter_enabled() {
                    false
                } else {
                    match self.filter_list() {
                        None => false,
                        Some(list) => {
                            let m = any_filter_entry_matches(
                                list,
                                src.app_name@,
                                exe_name,
                                src.exe_path@,
                            );
                            if self.filter_mode() == whitelist_name() {
                                !m
                            } else {
                                m
                            }
                        },
                    }
                }
            },
        }
    }

    pub fn new(
        app_filter_enabled: bool,
        app_filter_list: Option<String>,
        app_filter_mode: String,
        max_image_bytes: usize,
    ) -> (s: Self)
        ensures
            s.filter_enabled() == app_filter_enabled,
            s.filter_list() == (match app_filter_list {
                Some(l) => Some(l@),
                None => None,
            }),
            s.filter_mode() == app_filter_mode@,
            s.max_image() == max_image_bytes,
    {
        ClipChangeSettings { app_filter_enabled, app_filter_list, app_filter_mode, max_image_bytes }
    }

    /// Decision for a known process file name.
    pub fn is_source_app_excluded_for(&self, source: &Option<SourceAppInfo>, exe_name: &str) -> (b:
        bool)
        ensures
            b == self.excludes(*source, exe_name@),
    {
        let src = match source {
            None => return false,
            Some(src) => src,
        };
        if !self.app_filter_enabled {
            return false;
        }
        let list = match &self.app_filter_list {
            None => return false,
            Some(l) => l,
        };
        let entries = split_chars(&chars_of(list.as_str()), ',');
        let ghost parts = split_on(list@, ',');
        let mut matches = false;
        let mut i: usize = 0;
        while i < entries.len() && !matches
            invariant
                char_views(entries@) == parts,
                parts == split_on(list@, ','),
                i <= entries.len(),
                matches ==> any_filter_entry_matches(list@, src.app_name@, exe_name@, src.exe_path@),
                !matches ==> forall|j: int|
                    0 <= j < i ==> !(trim(#[trigger] parts[j]).len() > 0
                        && matches_app_filter_spec(parts[j], src.app_name@, exe_name@, src.exe_path@)),
            decreases entries.len() - i,
        {
            let entry = &entries[i];
            assert(entry@ == parts[i as int]);
            let t = trim_chars(entry);
            if t.len() > 0 {
                let es = string_of(entry);
                if matches_app_filter(es.as_str(), src.app_name.as_str(), exe_name, src.exe_path.as_str()) {
                    matches = true;
                }
            }
            i += 1;
        }
        let mode = chars_of(self.app_filter_mode.as_str());
        let wl: Vec<char> = vec!['w', 'h', 'i', 't', 'e', 'l', 'i', 's', 't'];
        if crate::text::chars_eq(&mode, &wl) {
            !matches
        } else {
            matches
        }
    }

    /// Whether content copied from `source` is to be ignored (no database access); the
    /// process name is the file name of its executable path (empty when it has none).
    pub fn is_source_app_excluded(&self, source: &Option<SourceAppInfo>) -> (b: bool)
        ensures
            b == self.excludes(*source, exe_name_spec(*source)),
            source is None || !self.filter_enabled() || self.filter_list() is None ==> !b,
    {
        let exe_name = match source {
            Some(src) => match crate::source_app::file_name_of(src.exe_path.as_str()) {
                Some(n) => n,
                None => String::new(),
            },
            None => String::new(),
        };
        self.is_source_app_excluded_for(source, exe_name.as_str())
    }
}

/// The process name of a source: the file name of its executable path, empty when it
/// has none.
pub open spec fn exe_name_spec(source: Option<SourceAppInfo>) -> Seq<char> {
    match source {
        Some(src) => match crate::source_app::file_name_spec(src.exe_path@) {
            Some(n) => n,
            None => seq![],
        },
        None => seq![],
    }
}

impl ClipChangeSettings {
    /// The settings from their stored values (each absent when not set): filtering is
    /// on only for `true`; an empty list counts as none; the mode defaults to
    /// `blacklist`; the image limit is given in kilobytes (saturating), 50 MB when it is
    /// absent or not a number.
    pub fn from_values(
        app_filter_enabled: Option<&str>,
        app_filter_list: Option<&str>,
        app_filter_mode: Option<&str>,
        max_image_size_kb: Option<&str>,
    ) -> (s: Self)
        ensures
            s.filter_enabled() == (match app_filter_enabled {
                Some(v) => v@ == "true"@,
                None => false,
            }),
            s.filter_list() == (match app_filter_list {
                Some(l) => if l@.len() > 0 {
                    Some(l@)
                } else {
                    None
                },
                None => None,
            }),
            s.filter_mode() == (match app_filter_mode {
                Some(m) => m@,
                None => "blacklist"@,
            }),
            s.max_image() == (match max_image_size_kb {
                Some(t) => match crate::numbers::parse_usize_spec(t@) {
                    Some(kb) => if kb * 1024 <= usize::MAX {
                        (kb * 1024) as usize
                    } else {
                        usize::MAX
                    },
                    None => 52428800usize,
                },
                None => 52428800usize,
            }),
    {
        let enabled = match app_filter_enabled {
            Some(v) => {
                let a = chars_of(v);
                let t = chars_of("true");
                chars_eq(a.as_slice(), t.as_slice())
            },
            None => false,
        };
        let list = match app_filter_list {
            Some(l) => if !l.is_empty() {
                Some(l.to_owned())
            } else {
                None
            },
            None => None,
        };
        let mode = match app_filter_mode {
            Some(m) => m.to_owned(),
            None => "blacklist".to_owned(),
        };
        let max_image_bytes = match max_image_size_kb {
            Some(t) => match crate::numbers::parse_usize(t) {
                Some(kb) => if kb <= usize::MAX / 1024 {
                    kb * 1024
                } else {
                    usize::MAX
                },
                None => 52428800usize,
            },
            None => 52428800usize,
        };
        ClipChangeSettings {
            app_filter_enabled: enabled,
            app_filter_list: list,
            app_filter_mode: mode,
            max_image_bytes,
        }
    }
}

impl Default for ClipChangeSettings {
    fn default() -> (s: Self)
        ensures
            !s.filter_enabled(),
            s.filter_list() is None,
            s.filter_mode() == seq!['b', 'l', 'a', 'c', 'k', 'l', 'i', 's', 't'],
            s.max_image() == 50 * 1024 * 1024,
    {
        let mode: Vec<char> = vec!['b', 'l', 'a', 'c', 'k', 'l', 'i', 's', 't'];
        ClipChangeSettings {
            app_filter_enabled: false,
            app_filter_list: None,
            app_filter_mode: string_of(&mode),
            max_image_bytes: 50 * 1024 * 1024,
        }
    }
}

// ---------------------------------------------------------------- truncation

/// Keeps the characters that start before byte `max_size` when the text is longer
/// than `max_size` bytes (`max_size == 0` keeps everything).
pub fn truncate_content(content: String, max_size: usize, content_type: &str) -> (out: String)
    ensures
        out@.len() <= content@.len(),
        out@ == content@.take(out@.len() as int),
        max_size == 0 ==> out@ == content@,
        max_size > 0 ==> forall|j: int|
            0 <= j < out@.len() ==> utf8_len(#[trigger] content@.take(j)) < max_size,
        max_size > 0 && out@.len() < content@.len() ==> utf8_len(content@.take(out@.len() as int))
            >= max_size,
{
    if max_size == 0 {
        return content;
    }
    let chars = chars_of(content.as_str());
    let mut i: usize = 0;
    let mut remaining: usize = max_size;
    let ghost mut acc: int = 0;
    assert(chars@.take(0) =~= Seq::<char>::empty());
    while i < chars.len() && remaining > 0
        invariant
            i <= chars.len(),
            chars@ == content@,
            acc == utf8_len(chars@.take(i as int)),
            remaining > 0 ==> acc == max_size - remaining,
            remaining == 0 ==> acc >= max_size,
            forall|j: int| 0 <= j < i ==> utf8_len(#[trigger] chars@.take(j)) < max_size,
        decreases chars.len() - i,
    {
        proof {
            lemma_utf8_len_take_step(chars@, i as int);
        }
        let w = utf8_width_of(chars[i]);
        if w >= remaining {
            remaining = 0;
        } else {
            remaining = remaining - w;
        }
        proof {
            acc = acc + utf8_width(chars@[i as int]);
        }
        i += 1;
    }
    if i == chars.len() {
        assert(content@.take(content@.len() as int) == content@);
        content
    } else {
        string_of_prefix(&chars, i)
    }
}

fn string_of_prefix(chars: &[char], n: usize) -> (out: String)
    requires
        n <= chars.len(),
    ensures
        out@ == chars@.take(n as int),
{
    let out = crate::text::string_of_range(chars, 0, n);
    assert(chars@.subrange(0, n as int) == chars@.take(n as int));
    out
}


// ---------------------------------------------------------------- CF_HTML source URL

pub open spec fn source_url_key() -> Seq<char> {
    seq!['S', 'o', 'u', 'r', 'c', 'e', 'U', 'R', 'L']
}

/// The value starts with an `http://` or `https://` scheme (any ASCII case).
/// With `http://`, the character after the scheme must be a single byte (the scheme
/// is read from the first eight bytes of the value).
pub open spec fn has_web_scheme(v: Seq<char>) -> bool {
    ||| starts_with_ci(v, http_scheme()) && (v.len() == 7 || (v[7] as u32) < 0x80)
    ||| starts_with_ci(v, https_scheme())
}

/// The URL given by one header line `SourceURL:<url>`.
pub open spec fn line_source_url(line: Seq<char>) -> Option<Seq<char>> {
    let k = first_index(line, ':');
    if k < 0 {
        None
    } else {
        let key = trim(line.take(k));
        let value = trim(line.skip(k + 1));
        if eq_ignore_ascii_case(key, source_url_key()) && has_web_scheme(value) {
            Some(value)
        } else {
            None
        }
    }
}

/// The first source URL among the header lines, which end at the first line that
/// starts (after white space) with `'<'`.
pub open spec fn first_source_url(lines: Seq<Seq<char>>) -> Option<Seq<char>>
    decreases lines.len(),
{
    if lines.len() == 0 {
        None
    } else if trim_start(lines[0]).len() > 0 && trim_start(lines[0])[0] == '<' {
        None
    } else {
        match line_source_url(lines[0]) {
            Some(u) => Some(u),
            None => first_source_url(lines.drop_first()),
        }
    }
}

fn has_web_scheme_chars(v: &[char]) -> (b: bool)
    ensures
        b == has_web_scheme(v@),
{
    let http: Vec<char> = vec!['h', 't', 't', 'p', ':', '/', '/'];
    let https: Vec<char> = vec!['h', 't', 't', 'p', 's', ':', '/', '/'];
    assert(http@ == http_scheme());
    assert(https@ == https_scheme());
    if starts_with_ci_chars(v, &http) && (v.len() == 7 || (v[7] as u32) < 0x80) {
        return true;
    }
    starts_with_ci_chars(v, &https)
}

fn line_source_url_chars(line: &[char]) -> (r: Option<Vec<char>>)
    ensures
        match r {
            Some(u) => line_source_url(line@) == Some(u@),
            None => line_source_url(line@) is None,
        },
{
    proof {
        lemma_first_index(line@, ':');
    }
    let k = match find_char(line, ':') {
        None => return None,
        Some(k) => k,
    };
    assert(first_index(line@, ':') == k) by {
        lemma_first_index(line@, ':');
        if first_index(line@, ':') >= 0 {
            if first_index(line@, ':') < k {
            } else if first_index(line@, ':') > k {
            }
        }
    }
    let mut key_part: Vec<char> = Vec::new();
    push_range(&mut key_part, line, 0, k);
    assert(Seq::<char>::empty() + line@.subrange(0, k as int) =~= line@.take(k as int));
    let mut value_part: Vec<char> = Vec::new();
    push_range(&mut value_part, line, k + 1, line.len());
    assert(Seq::<char>::empty() + line@.subrange(k + 1, line.len() as int) =~= line@.skip(k + 1));
    let key = trim_chars(&key_part);
    let value = trim_chars(&value_part);
    let expected: Vec<char> = vec!['S', 'o', 'u', 'r', 'c', 'e', 'U', 'R', 'L'];
    assert(expected@ == source_url_key());
    if eq_ignore_ascii_case_chars(&key, &expected) && has_web_scheme_chars(&value) {
        Some(value)
    } else {
        None
    }
}

/// The `SourceURL` recorded in a CF_HTML header, if it is an http(s) URL.
pub fn parse_cf_html_source_url(html: &str) -> (r: Option<String>)
    ensures
        match r {
            Some(u) => first_source_url(lines_of(html@)) == Some(u@),
            None => first_source_url(lines_of(html@)) is None,
        },
{
    let lines = lines_chars(&chars_of(html));
    let ghost all = lines_of(html@);
    let mut i: usize = 0;
    assert(all.skip(0) == all);
    while i < lines.len()
        invariant
            all == lines_of(html@),
            char_views(lines@) == all,
            i <= lines.len(),
            first_source_url(all) == first_source_url(all.skip(i as int)),
        decreases lines.len() - i,
    {
        let line = &lines[i];
        assert(line@ == all[i as int]);
        assert(all.skip(i as int)[0] == all[i as int]);
        assert(all.skip(i as int).drop_first() == all.skip(i + 1));
        let start = trim_start_at(line);
        assert(trim_start(line@).len() == line@.len() - start);
        if start < line.len() && line[start] == '<' {
            assert(trim_start(line@)[0] == line@[start as int]);
            assert(first_source_url(all.skip(i as int)) is None);
            return None;
        }
        assert(!(trim_start(line@).len() > 0 && trim_start(line@)[0] == '<'));
        match line_source_url_chars(line) {
            Some(u) => {
                assert(first_source_url(all.skip(i as int)) == Some(u@));
                return Some(string_of(&u));
            },
            None => {},
        }
        i += 1;
    }
    assert(all.skip(i as int) =~= Seq::<Seq<char>>::empty());
    None
}

// ---------------------------------------------------------------- file names in window titles

pub open spec fn document_extensions() -> Seq<Seq<char>> {
    seq![
        seq!['p', 'd', 'f'],
        seq!['d', 'o', 'c'],
        seq!['d', 'o', 'c', 'x'],
        seq!['x', 'l', 's'],
        seq!['x', 'l', 's', 'x'],
        seq!['p', 'p', 't'],
        seq!['p', 'p', 't', 'x'],
        seq!['t', 'x', 't'],
        seq!['m', 'd'],
        seq!['r', 't', 'f'],
        seq!['c', 's', 'v'],
        seq!['o', 'd', 't'],
        seq!['o', 'd', 's'],
        seq!['o', 'd', 'p'],
    ]
}

pub open spec fn code_extensions() -> Seq<Seq<char>> {
    script_extensions() + markup_extensions()
}

/// Source-code extensions of programming languages.
pub open spec fn script_extensions() -> Seq<Seq<char>> {
    seq![
        seq!['r', 's'],
        seq!['j', 's'],
        seq!['j', 's', 'x'],
        seq!['t', 's'],
        seq!['t', 's', 'x'],
        seq!['p', 'y'],
        seq!['g', 'o'],
        seq!['j', 'a', 'v', 'a'],
        seq!['c'],
        seq!['h'],
        seq!['c', 'p', 'p'],
    ]
}

/// Extensions of markup, data and shell files.
pub open spec fn markup_extensions() -> Seq<Seq<char>> {
    seq![
        seq!['h', 'p', 'p'],
        seq!['c', 's'],
        seq!['h', 't', 'm', 'l'],
        seq!['c', 's', 's'],
        seq!['j', 's', 'o', 'n'],
        seq!['y', 'a', 'm', 'l'],
        seq!['y', 'm', 'l'],
        seq!['t', 'o', 'm', 'l'],
        seq!['x', 'm', 'l'],
        seq!['s', 'q', 'l'],
        seq!['s', 'h'],
    ]
}

fn document_extension_list() -> (v: Vec<Vec<char>>)
    ensures
        char_views(v@) == document_extensions(),
{
    let v = vec![
        vec!['p', 'd', 'f'],
        vec!['d', 'o', 'c'],
        vec!['d', 'o', 'c', 'x'],
        vec!['x', 'l', 's'],
        vec!['x', 'l', 's', 'x'],
        vec!['p', 'p', 't'],
        vec!['p', 'p', 't', 'x'],
        vec!['t', 'x', 't'],
        vec!['m', 'd'],
        vec!['r', 't', 'f'],
        vec!['c', 's', 'v'],
        vec!['o', 'd', 't'],
        vec!['o', 'd', 's'],
        vec!['o', 'd', 'p'],
    ];
    assert(char_views(v@) =~= document_extensions());
    v
}

fn script_extension_list() -> (v: Vec<Vec<char>>)
    ensures
        char_views(v@) == script_extensions(),
{
    let v = vec![
        vec!['r', 's'],
        vec!['j', 's'],
        vec!['j', 's', 'x'],
        vec!['t', 's'],
        vec!['t', 's', 'x'],
        vec!['p', 'y'],
        vec!['g', 'o'],
        vec!['j', 'a', 'v', 'a'],
        vec!['c'],
        vec!['h'],
        vec!['c', 'p', 'p'],
    ];
    assert(v@[8]@ == seq!['c']);
    assert(v@[9]@ == seq!['h']);
    assert(v@[0]@ == seq!['r', 's']);
    assert(char_views(v@) =~= script_extensions());
    v
}

fn markup_extension_list() -> (v: Vec<Vec<char>>)
    ensures
        char_views(v@) == markup_extensions(),
{
    let v = vec![
        vec!['h', 'p', 'p'],
        vec!['c', 's'],
        vec!['h', 't', 'm', 'l'],
        vec!['c', 's', 's'],
        vec!['j', 's', 'o', 'n'],
        vec!['y', 'a', 'm', 'l'],
        vec!['y', 'm', 'l'],
        vec!['t', 'o', 'm', 'l'],
        vec!['x', 'm', 'l'],
        vec!['s', 'q', 'l'],
        vec!['s', 'h'],
    ];
    assert(char_views(v@) =~= markup_extensions());
    v
}

fn code_extension_list() -> (v: Vec<Vec<char>>)
    ensures
        char_views(v@) == code_extensions(),
{
    let mut v = script_extension_list();
    let mut w = markup_extension_list();
    let ghost a = v@;
    let ghost b = w@;
    v.append(&mut w);
    assert(v@ == a + b);
    assert(char_views(v@) =~= char_views(a) + char_views(b));
    v
}

fn list_contains(list: &Vec<Vec<char>>, e: &[char]) -> (b: bool)
    ensures
        b == char_views(list@).contains(e@),
{
    let mut i: usize = 0;
    while i < list.len()
        invariant
            i <= list.len(),
            forall|j: int| 0 <= j < i ==> char_views(list@)[j] != e@,
        decreases list.len() - i,
    {
        if chars_eq(&list[i], e) {
            assert(char_views(list@)[i as int] == e@);
            return true;
        }
        i += 1;
    }
    false
}

/// The extension of a bare file name: the text after its last dot, unless the name
/// is `.`, `..`, has no dot or starts with its only leading dot.
pub open spec fn file_extension(name: Seq<char>) -> Option<Seq<char>> {
    let k = last_index(name, '.');
    if name.len() == 0 || name == seq!['.'] || name == seq!['.', '.'] || k <= 0 {
        None
    } else {
        Some(name.skip(k + 1))
    }
}

/// The candidate is a bare `http://` or starts with `https://` (any ASCII case).
pub open spec fn looks_like_web_address(c: Seq<char>) -> bool {
    eq_ignore_ascii_case(c, http_scheme()) || starts_with_ci(c, https_scheme())
}

/// The file name that one candidate part of a title names, if its extension is a
/// document type (or a source code type when `allow_code`).
pub open spec fn file_name_candidate(c: Seq<char>, allow_code: bool) -> Option<Seq<char>> {
    let c2 = match rsplit_once(c, seq![' ', '[']) {
        Some((name, directory)) => if directory.len() > 0 && directory.last() == ']' {
            trim(name)
        } else {
            c
        },
        None => c,
    };
    if looks_like_web_address(c2) {
        None
    } else {
        let name = trim(last_segment(c2));
        match file_extension(name) {
            None => None,
            Some(ext) => {
                let e = ascii_lower_seq(ext);
                if document_extensions().contains(e) || (allow_code && code_extensions().contains(
                    e,
                )) {
                    Some(name)
                } else {
                    None
                }
            },
        }
    }
}

/// The file name shown in a window title: taken from the part before the last
/// `" - "` when that part names one, else from the whole title.
pub open spec fn source_file_name_spec(title: Seq<char>, allow_code: bool) -> Option<Seq<char>> {
    let t = trim(title);
    match rsplit_once(t, seq![' ', '-', ' ']) {
        Some((prefix, _)) => match file_name_candidate(trim(prefix), allow_code) {
            Some(n) => Some(n),
            None => file_name_candidate(t, allow_code),
        },
        None => file_name_candidate(t, allow_code),
    }
}

fn file_extension_chars(name: &[char]) -> (r: Option<Vec<char>>)
    ensures
        match r {
            Some(e) => file_extension(name@) == Some(e@),
            None => file_extension(name@) is None,
        },
{
    let dot: Vec<char> = vec!['.'];
    let dotdot: Vec<char> = vec!['.', '.'];
    if name.len() == 0 || chars_eq(name, &dot) || chars_eq(name, &dotdot) {
        return None;
    }
    proof {
        crate::text::lemma_last_index(name@, '.');
    }
    match last_index_of(name, '.') {
        None => None,
        Some(k) => {
            if k == 0 {
                None
            } else {
                let mut e: Vec<char> = Vec::new();
                push_range(&mut e, name, k + 1, name.len());
                assert(Seq::<char>::empty() + name@.subrange(k + 1, name.len() as int) =~= name@.skip(
                    k + 1,
                ));
                Some(e)
            }
        },
    }
}

fn file_name_candidate_chars(c: &[char], allow_code: bool) -> (r: Option<Vec<char>>)
    ensures
        match r {
            Some(n) => file_name_candidate(c@, allow_code) == Some(n@),
            None => file_name_candidate(c@, allow_code) is None,
        },
{
    let bracket: Vec<char> = vec![' ', '['];
    assert(bracket@ == seq![' ', '[']);
    let c2 = match rsplit_once_chars(c, &bracket) {
        Some((name, directory)) => {
            if directory.len() > 0 && directory[directory.len() - 1] == ']' {
                trim_chars(&name)
            } else {
                copy_chars(c)
            }
        },
        None => copy_chars(c),
    };
    let http: Vec<char> = vec!['h', 't', 't', 'p', ':', '/', '/'];
    let https: Vec<char> = vec!['h', 't', 't', 'p', 's', ':', '/', '/'];
    assert(http@ == http_scheme());
    assert(https@ == https_scheme());
    if eq_ignore_ascii_case_chars(&c2, &http) || starts_with_ci_chars(&c2, &https) {
        return None;
    }
    let name = trim_chars(&last_segment_chars(&c2));
    match file_extension_chars(&name) {
        None => None,
        Some(ext) => {
            let e = ascii_lower_chars(&ext);
            let docs = document_extension_list();
            let code = code_extension_list();
            if list_contains(&docs, &e) || (allow_code && list_contains(&code, &e)) {
                Some(name)
            } else {
                None
            }
        },
    }
}

/// Conservatively extracts the name of the open file from a window title.
pub fn source_file_name_from_title(title: &str, allow_code: bool) -> (r: Option<String>)
    ensures
        match r {
            Some(n) => source_file_name_spec(title@, allow_code) == Some(n@),
            None => source_file_name_spec(title@, allow_code) is None,
        },
{
    let t = trim_chars(&chars_of(title));
    let sep: Vec<char> = vec![' ', '-', ' '];
    assert(sep@ == seq![' ', '-', ' ']);
    if let Some((prefix, _)) = rsplit_once_chars(&t, &sep) {
        if let Some(n) = file_name_candidate_chars(&trim_chars(&prefix), allow_code) {
            return Some(string_of(&n));
        }
    }
    match file_name_candidate_chars(&t, allow_code) {
        Some(n) => Some(string_of(&n)),
        None => None,
    }
}

pub open spec fn editor_names() -> Seq<Seq<char>> {
    seq![
        seq!['c', 'o', 'd', 'e'],
        seq!['s', 't', 'u', 'd', 'i', 'o'],
        seq!['e', 'd', 'i', 't', 'o', 'r'],
        seq!['i', 'd', 'e', 'a'],
        seq!['i', 'n', 't', 'e', 'l', 'l', 'i', 'j'],
        seq!['p', 'y', 'c', 'h', 'a', 'r', 'm'],
        seq!['w', 'e', 'b', 's', 't', 'o', 'r', 'm'],
        seq!['s', 'u', 'b', 'l', 'i', 'm', 'e'],
        seq!['n', 'o', 't', 'e', 'p', 'a', 'd'],
        seq!['v', 'i', 'm'],
        seq!['r', 'u', 's', 't', 'r', 'o', 'v', 'e', 'r'],
    ]
}

/// The application name (ASCII lower-cased) contains the name of a code editor.
pub open spec fn is_editor_app(app: Seq<char>) -> bool {
    exists|i: int|
        0 <= i < editor_names().len() && contains_seq(
            ascii_lower_seq(app),
            #[trigger] editor_names()[i],
        )
}

fn editor_name_list() -> (v: Vec<Vec<char>>)
    ensures
        char_views(v@) == editor_names(),
{
    let v = vec![
        vec!['c', 'o', 'd', 'e'],
        vec!['s', 't', 'u', 'd', 'i', 'o'],
        vec!['e', 'd', 'i', 't', 'o', 'r'],
        vec!['i', 'd', 'e', 'a'],
        vec!['i', 'n', 't', 'e', 'l', 'l', 'i', 'j'],
        vec!['p', 'y', 'c', 'h', 'a', 'r', 'm'],
        vec!['w', 'e', 'b', 's', 't', 'o', 'r', 'm'],
        vec!['s', 'u', 'b', 'l', 'i', 'm', 'e'],
        vec!['n', 'o', 't', 'e', 'p', 'a', 'd'],
        vec!['v', 'i', 'm'],
        vec!['r', 'u', 's', 't', 'r', 'o', 'v', 'e', 'r'],
    ];
    assert(char_views(v@) =~= editor_names());
    v
}

/// Text-like items (text, HTML, RTF) get a file name
pub open spec fn is_text_like(t: ContentType) -> bool {
    t == ContentType::Text || t == ContentType::Html || t == ContentType::Rtf
}

pub open spec fn opt_view(o: Option<&str>) -> Option<Seq<char>> {
    match o {
        Some(s) => Some(s@),
        None => None,
    }
}

pub open spec fn string_opt_view(o: Option<String>) -> Option<Seq<char>> {
    match o {
        Some(s) => Some(s@),
        None => None,
    }
}

/// The file name recorded for a text-like item copied from a window with this title.
pub open spec fn attached_file_name(
    source_title: Option<Seq<char>>,
    source_app_name: Option<Seq<char>>,
) -> Option<Seq<char>> {
    let app = match source_app_name {
        Some(a) => a,
        None => Seq::<char>::empty(),
    };
    match source_title {
        Some(t) => source_file_name_spec(t, is_editor_app(app)),
        None => None,
    }
}

/// Records the file name found in the source window title on text, HTML and RTF items.
pub fn attach_source_file_name(
    item: &mut NewClipboardItem,
    source_title: Option<&str>,
    source_app_name: Option<&str>,
)
    ensures
        is_text_like(old(item).content_type) ==> string_opt_view(final(item).source_file_name)
            == attached_file_name(opt_view(source_title), opt_view(source_app_name)),
        is_text_like(old(item).content_type) ==> *final(item) == (NewClipboardItem {
            source_file_name: final(item).source_file_name,
            ..*old(item)
        }),
        !is_text_like(old(item).content_type) ==> *final(item) == *old(item),
{
    match item.content_type {
        ContentType::Text | ContentType::Html | ContentType::Rtf => {},
        _ => return,
    }
    let app = match source_app_name {
        Some(a) => ascii_lower_chars(&chars_of(a)),
        None => Vec::new(),
    };
    let ghost app_view = match source_app_name {
        Some(a) => a@,
        None => Seq::<char>::empty(),
    };
    assert(app@ == ascii_lower_seq(app_view)) by {
        if source_app_name is None {
            assert(ascii_lower_seq(Seq::<char>::empty()) =~= Seq::<char>::empty());
        }
    }
    let names = editor_name_list();
    let mut editor = false;
    let mut i: usize = 0;
    while i < names.len() && !editor
        invariant
            char_views(names@) == editor_names(),
            app@ == ascii_lower_seq(app_view),
            i <= names.len(),
            editor ==> is_editor_app(app_view),
            !editor ==> forall|j: int|
                0 <= j < i ==> !contains_seq(ascii_lower_seq(app_view), #[trigger] editor_names()[j]),
        decreases names.len() - i,
    {
        assert(names@[i as int]@ == editor_names()[i as int]);
        if contains_chars(&app, &names[i]) {
            editor = true;
        }
        i += 1;
    }
    item.source_file_name = match source_title {
        Some(title) => source_file_name_from_title(title, editor),
        None => None,
    };
}

// ---------------------------------------------------------------- previews

pub open spec fn preview_spec(text: Seq<char>) -> Seq<char> {
    let t = trim(text);
    if t.len() > 200 {
        t.take(200) + seq!['.', '.', '.']
    } else {
        t
    }
}

/// The first 200 characters of the trimmed text, with `...` when there were more.
pub fn create_preview(text: &str) -> (out: String)
    ensures
        out@ == preview_spec(text@),
{
    let t = trim_chars(&chars_of(text));
    if t.len() > 200 {
        let mut v: Vec<char> = Vec::new();
        push_range(&mut v, &t, 0, 200);
        v.push('.');
        v.push('.');
        v.push('.');
        assert(v@ =~= t@.take(200) + seq!['.', '.', '.']);
        string_of(&v)
    } else {
        string_of(&t)
    }
}

/// A preview starts with the text: short (trimmed) text is its own preview; longer
/// text shows its first 200 characters, in order, then `...`. So every character of a
/// preview before the ellipsis is the character at the same place in the trimmed text.
pub proof fn lemma_preview_is_prefix_of_text(text: Seq<char>)
    ensures
        trim(text).len() <= 200 ==> preview_spec(text) == trim(text),
        trim(text).len() > 200 ==> {
            &&& preview_spec(text).len() == 203
            &&& forall|i: int| 0 <= i < 200 ==> #[trigger] preview_spec(text)[i] == trim(text)[i]
            &&& preview_spec(text)[200] == '.' && preview_spec(text)[201] == '.'
                && preview_spec(text)[202] == '.'
        },
        preview_spec(text).len() <= trim(text).len() + 3,
{
}

/// The filter decides from the lower-cased forms alone: filters and application names
/// that lower-case alike (with or without wildcards alike) give the same answer, so the
/// filter does not depend on upper or lower case.
pub proof fn lemma_app_filter_ignores_case(
    f1: Seq<char>,
    f2: Seq<char>,
    a1: Seq<char>,
    a2: Seq<char>,
    e1: Seq<char>,
    e2: Seq<char>,
    p1: Seq<char>,
    p2: Seq<char>,
)
    requires
        unicode_to_lowercase(trim(f1)) == unicode_to_lowercase(trim(f2)),
        has_wildcard(trim(f1)) == has_wildcard(trim(f2)),
        (trim(f1).len() > 0) == (trim(f2).len() > 0),
        unicode_to_lowercase(a1) == unicode_to_lowercase(a2),
        unicode_to_lowercase(e1) == unicode_to_lowercase(e2),
        unicode_to_lowercase(p1) == unicode_to_lowercase(p2),
    ensures
        matches_app_filter_spec(f1, a1, e1, p1) == matches_app_filter_spec(f2, a2, e2, p2),
{
}

/// A plain filter (no `*` or `?`, not blank) matches exactly when its lower-cased form
/// occurs in the lower-cased application name, process name or process path; an
/// occurrence in any one of them is enough, and a blank filter matches nothing.
pub proof fn lemma_plain_filter_is_a_substring_test(f: Seq<char>, a: Seq<char>, e: Seq<char>, p: Seq<char>)
    ensures
        trim(f).len() == 0 ==> !matches_app_filter_spec(f, a, e, p),
        trim(f).len() > 0 && !has_wildcard(trim(f)) ==> (matches_app_filter_spec(f, a, e, p) <==> (
        contains_seq(unicode_to_lowercase(a), unicode_to_lowercase(trim(f))) || contains_seq(
            unicode_to_lowercase(e),
            unicode_to_lowercase(trim(f)),
        ) || contains_seq(unicode_to_lowercase(p), unicode_to_lowercase(trim(f))))),
{
}

} // verus!
