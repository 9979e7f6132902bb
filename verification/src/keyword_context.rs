//! A short excerpt of a text around the first case-insensitive occurrence of a
//! keyword, as shown in search results.
//!
//! Positions and lengths are counted in characters. Case is folded with the
//! Unicode lower-case mapping of `str::to_lowercase`.
use vstd::prelude::*;
use crate::text::{
    chars_of, chars_eq, contains_seq, find_chars, lowercase_chars, occurs_at, string_of,
    string_of_range, unicode_to_lowercase,
};

verus! {

pub open spec fn min_int(a: int, b: int) -> int {
    if a <= b {
        a
    } else {
        b
    }
}

pub open spec fn max_int(a: int, b: int) -> int {
    if a >= b {
        a
    } else {
        b
    }
}

/// The characters of `text` from `p`, `w` of them or up to the end.
pub open spec fn window(text: Seq<char>, p: int, w: int) -> Seq<char> {
    text.subrange(p, min_int(p + w, text.len() as int))
}

/// The first occurrence of `p` in `s` from position `i` on.
pub open spec fn occurrence_search(s: Seq<char>, p: Seq<char>, i: int) -> Option<int>
    decreases s.len() + 1 - i,
{
    if i < 0 || i > s.len() {
        None
    } else if occurs_at(s, p, i) {
        Some(i)
    } else {
        occurrence_search(s, p, i + 1)
    }
}

/// The first occurrence of `p` in `s`.
pub open spec fn first_occurrence(s: Seq<char>, p: Seq<char>) -> Option<int> {
    occurrence_search(s, p, 0)
}

proof fn lemma_occurrence_search_first(s: Seq<char>, p: Seq<char>, m: int, i: int)
    requires
        0 <= m <= i,
        occurs_at(s, p, i),
        forall|j: int| 0 <= j < i ==> !occurs_at(s, p, j),
    ensures
        occurrence_search(s, p, m) == Some(i),
    decreases i - m,
{
    if m < i {
        lemma_occurrence_search_first(s, p, m + 1, i);
    }
}

proof fn lemma_occurrence_search_none(s: Seq<char>, p: Seq<char>, m: int)
    requires
        0 <= m,
        !contains_seq(s, p),
    ensures
        occurrence_search(s, p, m) is None,
    decreases s.len() + 1 - m,
{
    if m <= s.len() {
        assert(!occurs_at(s, p, m));
        lemma_occurrence_search_none(s, p, m + 1);
    }
}

proof fn lemma_occurrence_search_found(s: Seq<char>, p: Seq<char>, m: int)
    requires
        occurrence_search(s, p, m) is Some,
    ensures
        m <= occurrence_search(s, p, m)->0,
        occurs_at(s, p, occurrence_search(s, p, m)->0),
    decreases s.len() + 1 - m,
{
    if 0 <= m <= s.len() && !occurs_at(s, p, m) {
        lemma_occurrence_search_found(s, p, m + 1);
    }
}

/// `text[i..i+k]` folds to `kl`.
pub open spec fn folds_at(text: Seq<char>, kl: Seq<char>, i: int) -> bool {
    0 <= i < text.len() && i + kl.len() <= text.len() && unicode_to_lowercase(
        text.subrange(i, i + kl.len()),
    ) == kl
}

/// The first position from `i` on whose window of `kl.len()` characters folds to `kl`.
pub open spec fn fold_search(text: Seq<char>, kl: Seq<char>, i: int) -> Option<int>
    decreases text.len() - i,
{
    if i < 0 || i >= text.len() {
        None
    } else if folds_at(text, kl, i) {
        Some(i)
    } else {
        fold_search(text, kl, i + 1)
    }
}

/// The first character position whose window of `kl.len()` characters folds to `kl`.
pub open spec fn first_fold(text: Seq<char>, kl: Seq<char>) -> Option<int> {
    fold_search(text, kl, 0)
}

/// A search that finds nothing past `i` finds nothing from `i` on.
proof fn lemma_fold_search_none(text: Seq<char>, kl: Seq<char>, i: int)
    requires
        0 <= i,
        forall|j: int| i <= j ==> !folds_at(text, kl, j),
    ensures
        fold_search(text, kl, i) is None,
    decreases text.len() - i,
{
    if i < text.len() {
        lemma_fold_search_none(text, kl, i + 1);
    }
}

/// What the search finds lies inside the text and folds to `kl`.
pub proof fn lemma_fold_search_found(text: Seq<char>, kl: Seq<char>, i: int)
    requires
        fold_search(text, kl, i) is Some,
    ensures
        i <= fold_search(text, kl, i)->0 < text.len(),
        folds_at(text, kl, fold_search(text, kl, i)->0),
    decreases text.len() - i,
{
    if 0 <= i < text.len() && !folds_at(text, kl, i) {
        lemma_fold_search_found(text, kl, i + 1);
    }
}

/// Where the keyword (already folded to `kl`) is taken to start in `text`: the
/// position of its first occurrence in the folded text, when the same number of
/// characters of `text` there (at least one) folds back to `kl`; else the first
/// position found character by character; and nowhere when the folded text does
/// not contain it at all.
pub open spec fn keyword_position(text: Seq<char>, kl: Seq<char>) -> Option<int> {
    match first_occurrence(unicode_to_lowercase(text), kl) {
        None => None,
        Some(p) => if p < text.len() && unicode_to_lowercase(
            window(text, p, max_int(kl.len() as int, 1)),
        ) == kl {
            Some(p)
        } else {
            first_fold(text, kl)
        },
    }
}

pub open spec fn ellipsis() -> Seq<char> {
    seq!['.', '.', '.']
}

/// The excerpt around a keyword of `klen` characters at `pos`: up to a third of
/// `max_len` characters before it, the rest after it, with `...` where text was cut.
pub open spec fn snippet_spec(text: Seq<char>, pos: int, klen: int, max_len: int) -> Seq<char> {
    let before = max_len / 3;
    let start = max_int(pos - before, 0);
    let end = min_int(pos + klen + max_len - before, text.len() as int);
    if end <= start {
        text.take(min_int(max_len, text.len() as int))
    } else {
        (if start > 0 {
            ellipsis()
        } else {
            seq![]
        }) + text.subrange(start, end) + (if end < text.len() {
            ellipsis()
        } else {
            seq![]
        })
    }
}

/// The excerpt shown for `text` and `keyword`: around the keyword where it is found,
/// else the first `max_len` characters.
pub open spec fn keyword_context_spec(text: Seq<char>, keyword: Seq<char>, max_len: int) -> Seq<
    char,
> {
    let kl = unicode_to_lowercase(keyword);
    match keyword_position(text, kl) {
        None => text.take(min_int(max_len, text.len() as int)),
        Some(p) => snippet_spec(text, p, kl.len() as int, max_len),
    }
}

fn ellipsis_chars() -> (v: Vec<char>)
    ensures
        v@ == ellipsis(),
{
    let v = vec!['.', '.', '.'];
    assert(v@ =~= ellipsis());
    v
}

/// The first `n` characters of `text` (all of them when it is shorter).
fn prefix_string(t: &[char], n: usize) -> (out: String)
    ensures
        out@ == t@.take(min_int(n as int, t@.len() as int)),
{
    let end = if n < t.len() {
        n
    } else {
        t.len()
    };
    let out = string_of_range(t, 0, end);
    assert(t@.subrange(0, end as int) =~= t@.take(end as int));
    out
}

/// `text[start..end]`, folded.
fn folded_range(t: &[char], start: usize, end: usize) -> (out: Vec<char>)
    requires
        start <= end <= t@.len(),
    ensures
        out@ == unicode_to_lowercase(t@.subrange(start as int, end as int)),
{
    let s = string_of_range(t, start, end);
    lowercase_chars(s.as_str())
}

/// The first character position of `t` whose window of `kl.len()` characters folds
/// to `kl`.
pub fn find_keyword_char_pos_slow(text: &str, keyword_lower: &str) -> (r: Option<usize>)
    ensures
        match r {
            Some(i) => first_fold(text@, keyword_lower@) == Some(i as int),
            None => first_fold(text@, keyword_lower@) is None,
        },
{
    let t = chars_of(text);
    let kl = chars_of(keyword_lower);
    slow_fold_position(t.as_slice(), kl.as_slice())
}

fn slow_fold_position(t: &[char], kl: &[char]) -> (r: Option<usize>)
    ensures
        match r {
            Some(i) => first_fold(t@, kl@) == Some(i as int),
            None => first_fold(t@, kl@) is None,
        },
{
    let n = t.len();
    let k = kl.len();
    let mut i: usize = 0;
    while i < n
        invariant
            i <= n == t@.len(),
            k == kl@.len(),
            first_fold(t@, kl@) == fold_search(t@, kl@, i as int),
        ensures
            i == n || k > n - i,
            first_fold(t@, kl@) == fold_search(t@, kl@, i as int),
        decreases n - i,
    {
        if k > n - i {
            break;
        }
        let w = folded_range(t, i, i + k);
        if chars_eq(w.as_slice(), kl) {
            assert(folds_at(t@, kl@, i as int));
            return Some(i);
        }
        i += 1;
    }
    proof {
        lemma_fold_search_none(t@, kl@, i as int);
    }
    None
}

/// Builds the excerpt around a keyword of `keyword_char_len` characters at character
/// position `keyword_char_pos`.
pub fn build_context_snippet(
    text: &str,
    keyword_char_pos: usize,
    keyword_char_len: usize,
    max_len: usize,
) -> (out: String)
    requires
        keyword_char_pos + keyword_char_len + (max_len - max_len / 3) <= usize::MAX,
    ensures
        out@ == snippet_spec(
            text@,
            keyword_char_pos as int,
            keyword_char_len as int,
            max_len as int,
        ),
{
    let t = chars_of(text);
    snippet_of(t.as_slice(), keyword_char_pos, keyword_char_len, max_len)
}

fn snippet_of(t: &[char], pos: usize, klen: usize, max_len: usize) -> (out: String)
    requires
        pos + klen + (max_len - max_len / 3) <= usize::MAX,
    ensures
        out@ == snippet_spec(t@, pos as int, klen as int, max_len as int),
{
    let n = t.len();
    let before = max_len / 3;
    let start = if pos > before {
        pos - before
    } else {
        0
    };
    let reach = pos + klen + (max_len - before);
    let end = if reach < n {
        reach
    } else {
        n
    };
    if end <= start {
        return prefix_string(t, max_len);
    }
    let mut out: Vec<char> = Vec::new();
    if start > 0 {
        out = ellipsis_chars();
    }
    let ghost head = out@;
    let mut i: usize = start;
    while i < end
        invariant
            start <= i <= end <= t@.len(),
            out@ == head + t@.subrange(start as int, i as int),
        decreases end - i,
    {
        out.push(t[i]);
        i += 1;
        assert(out@ =~= head + t@.subrange(start as int, i as int));
    }
    if end < n {
        out.push('.');
        out.push('.');
        out.push('.');
    }
    let ghost expected = snippet_spec(t@, pos as int, klen as int, max_len as int);
    assert(out@ =~= expected);
    string_of(out.as_slice())
}

/// Where `keyword_lower` starts in `t` (see `keyword_position`).
fn keyword_char_position(t: &[char], kl: &[char]) -> (r: Option<usize>)
    ensures
        match r {
            Some(p) => keyword_position(t@, kl@) == Some(p as int),
            None => keyword_position(t@, kl@) is None,
        },
{
    let text = string_of(t);
    let tl = lowercase_chars(text.as_str());
    match find_chars(tl.as_slice(), kl) {
        None => {
            proof {
                lemma_occurrence_search_none(tl@, kl@, 0);
            }
            None
        },
        Some(p) => {
            proof {
                lemma_occurrence_search_first(tl@, kl@, 0, p as int);
            }
            let n = t.len();
            if p < n {
                let w = if kl.len() == 0 {
                    1
                } else {
                    kl.len()
                };
                let e = if w > n - p {
                    n
                } else {
                    p + w
                };
                let folded = folded_range(t, p, e);
                if chars_eq(folded.as_slice(), kl) {
                    return Some(p);
                }
            }
            slow_fold_position(t, kl)
        },
    }
}

/// The lengths that the excerpt of `text` for `keyword` adds up fit in `usize`.
pub open spec fn context_fits(text: Seq<char>, keyword: Seq<char>, max_len: int) -> bool {
    let kl = unicode_to_lowercase(keyword);
    match keyword_position(text, kl) {
        Some(p) => p + kl.len() + (max_len - max_len / 3) <= usize::MAX,
        None => true,
    }
}

/// The excerpt of `text` around the first case-insensitive occurrence of `keyword`,
/// or its first `max_len` characters when the keyword is not found.
pub fn extract_keyword_context(text: &str, keyword: &str, max_len: usize) -> (out: String)
    requires
        context_fits(text@, keyword@, max_len as int),
    ensures
        out@ == keyword_context_spec(text@, keyword@, max_len as int),
{
    let kl = lowercase_chars(keyword);
    let t = chars_of(text);
    match keyword_char_position(t.as_slice(), kl.as_slice()) {
        None => prefix_string(t.as_slice(), max_len),
        Some(p) => snippet_of(t.as_slice(), p, kl.len(), max_len),
    }
}

/// The excerpt of `text` for `keyword`, or `None` when the lengths involved do not fit
/// in `usize` together.
pub fn keyword_context(text: &str, keyword: &str, max_len: usize) -> (out: Option<String>)
    ensures
        match out {
            Some(s) => context_fits(text@, keyword@, max_len as int) && s@
                == keyword_context_spec(text@, keyword@, max_len as int),
            None => !context_fits(text@, keyword@, max_len as int),
        },
{
    let kl = lowercase_chars(keyword);
    let t = chars_of(text);
    match keyword_char_position(t.as_slice(), kl.as_slice()) {
        None => Some(extract_keyword_context(text, keyword, max_len)),
        Some(p) => {
            let rest = max_len - max_len / 3;
            if p > usize::MAX - kl.len() || rest > usize::MAX - kl.len() - p {
                None
            } else {
                Some(extract_keyword_context(text, keyword, max_len))
            }
        },
    }
}

/// The position where a keyword is taken to start lies inside the text.
pub proof fn lemma_keyword_position_in_text(text: Seq<char>, kl: Seq<char>)
    requires
        keyword_position(text, kl) is Some,
    ensures
        0 <= keyword_position(text, kl)->0 < text.len(),
{
    lemma_occurrence_search_found(unicode_to_lowercase(text), kl, 0);
    let q = first_occurrence(unicode_to_lowercase(text), kl)->0;
    if !(q < text.len() && unicode_to_lowercase(window(text, q, max_int(kl.len() as int, 1)))
        == kl) {
        lemma_fold_search_found(text, kl, 0);
    }
}

/// An excerpt around a keyword of at least one character at `p` holds the text's
/// characters from `p` on, as many as the keyword has (fewer at the end of the text).
pub proof fn lemma_snippet_contains_window(text: Seq<char>, p: int, k: int, max_len: int)
    requires
        0 <= p < text.len(),
        k > 0,
        max_len >= 0,
    ensures
        contains_seq(snippet_spec(text, p, k, max_len), window(text, p, k)),
{
    let n = text.len() as int;
    let before = max_len / 3;
    let start = max_int(p - before, 0);
    let end = min_int(p + k + max_len - before, n);
    assert(end > start);
    let head: Seq<char> = if start > 0 {
        ellipsis()
    } else {
        seq![]
    };
    let tail: Seq<char> = if end < n {
        ellipsis()
    } else {
        seq![]
    };
    let body = text.subrange(start, end);
    let out = head + body + tail;
    assert(out == snippet_spec(text, p, k, max_len));
    let w = window(text, p, k);
    let at = head.len() + (p - start);
    assert(min_int(p + k, n) <= end);
    assert(out.subrange(at, at + w.len()) =~= w);
    assert(occurs_at(out, w, at));
}

/// A keyword that is found and folds to at least one character appears in the
/// excerpt in the text's own case: the characters of the text at the position where
/// it was found.
pub proof fn lemma_context_contains_keyword(text: Seq<char>, keyword: Seq<char>, max_len: int)
    requires
        unicode_to_lowercase(keyword).len() > 0,
        keyword_position(text, unicode_to_lowercase(keyword)) is Some,
        max_len >= 0,
    ensures
        contains_seq(
            keyword_context_spec(text, keyword, max_len),
            window(
                text,
                keyword_position(text, unicode_to_lowercase(keyword))->0,
                unicode_to_lowercase(keyword).len() as int,
            ),
        ),
{
    let kl = unicode_to_lowercase(keyword);
    lemma_keyword_position_in_text(text, kl);
    let p = keyword_position(text, kl)->0;
    lemma_snippet_contains_window(text, p, kl.len() as int, max_len);
}

} // verus!
