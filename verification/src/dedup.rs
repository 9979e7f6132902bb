//! Semantic de-duplication of clipboard text and URL detection.
use vstd::prelude::*;
use crate::hashing::{blake3_hex, blake3_hex_digest};
use crate::text::{
    chars_of, string_of, push_range, trim, trim_chars, is_white_space, is_white_space_char,
    starts_with_ci, starts_with_ci_chars,
};
use vstd::utf8::encode_utf8;

verus! {

// ---------------------------------------------------------------- normalisation spec

pub open spec fn is_zero_width(c: char) -> bool {
    c == '\u{200B}' || c == '\u{200C}' || c == '\u{200D}' || c == '\u{2060}' || c == '\u{FEFF}'
}

/// `"\r\n"` and lone `'\r'` become `'\n'`.
pub open spec fn unify_line_endings(s: Seq<char>) -> Seq<char>
    decreases s.len(),
{
    if s.len() == 0 {
        seq![]
    } else if s[0] == '\r' && s.len() > 1 && s[1] == '\n' {
        unify_line_endings(s.drop_first())
    } else if s[0] == '\r' {
        seq!['\n'] + unify_line_endings(s.drop_first())
    } else {
        seq![s[0]] + unify_line_endings(s.drop_first())
    }
}

/// Zero-width characters are dropped and no-break spaces become spaces.
pub open spec fn scrub_invisible(s: Seq<char>) -> Seq<char>
    decreases s.len(),
{
    if s.len() == 0 {
        seq![]
    } else if is_zero_width(s[0]) {
        scrub_invisible(s.drop_first())
    } else if s[0] == '\u{00A0}' {
        seq![' '] + scrub_invisible(s.drop_first())
    } else {
        seq![s[0]] + scrub_invisible(s.drop_first())
    }
}

pub open spec fn is_blank(c: char) -> bool {
    c == ' ' || c == '\t'
}

/// `s` begins with a (possibly empty) run of blanks that reaches the end of its line.
pub open spec fn blank_run_ends_line(s: Seq<char>) -> bool
    decreases s.len(),
{
    if s.len() == 0 {
        true
    } else if s[0] == '\n' {
        true
    } else if is_blank(s[0]) {
        blank_run_ends_line(s.drop_first())
    } else {
        false
    }
}

/// Spaces and tabs at the end of every line are removed.
pub open spec fn trim_line_ends(s: Seq<char>) -> Seq<char>
    decreases s.len(),
{
    if s.len() == 0 {
        seq![]
    } else if is_blank(s[0]) && blank_run_ends_line(s) {
        trim_line_ends(s.drop_first())
    } else {
        seq![s[0]] + trim_line_ends(s.drop_first())
    }
}

/// Newlines at the very end are removed.
pub open spec fn strip_trailing_newlines(s: Seq<char>) -> Seq<char>
    decreases s.len(),
{
    if s.len() > 0 && s.last() == '\n' {
        strip_trailing_newlines(s.drop_last())
    } else {
        s
    }
}

/// The text that semantically equivalent clipboard contents share.
pub open spec fn normalized_text(s: Seq<char>) -> Seq<char> {
    strip_trailing_newlines(trim_line_ends(scrub_invisible(unify_line_endings(s))))
}

/// Bytes tagging the digest of text (`"text:"`).
pub open spec fn text_tag() -> Seq<u8> {
    seq![116u8, 101u8, 120u8, 116u8, 58u8]
}

/// The semantic hash of `text`, if its normalised form is not empty.
pub open spec fn semantic_hash_spec(text: Seq<char>) -> Option<Seq<char>> {
    let n = normalized_text(text);
    if n.len() == 0 {
        None
    } else {
        Some(blake3_hex_digest(text_tag() + encode_utf8(n)))
    }
}

// ---------------------------------------------------------------- normalisation passes

proof fn lemma_skip_step(s: Seq<char>, i: int)
    requires
        0 <= i < s.len(),
    ensures
        s.skip(i).drop_first() == s.skip(i + 1),
        s.skip(i)[0] == s[i],
        s.skip(i).len() == s.len() - i,
{
    assert(s.skip(i).drop_first() =~= s.skip(i + 1));
}

fn unify_pass(s: &[char]) -> (out: Vec<char>)
    ensures
        out@ == unify_line_endings(s@),
{
    let mut out: Vec<char> = Vec::new();
    let mut i: usize = 0;
    assert(s@.skip(0) == s@);
    while i < s.len()
        invariant
            i <= s.len(),
            unify_line_endings(s@) == out@ + unify_line_endings(s@.skip(i as int)),
        decreases s.len() - i,
    {
        proof {
            lemma_skip_step(s@, i as int);
            if i + 1 < s.len() {
                assert(s@.skip(i as int)[1] == s@[i + 1]);
            }
        }
        let c = s[i];
        let ghost rest = unify_line_endings(s@.skip(i + 1));
        if c == '\r' && i + 1 < s.len() && s[i + 1] == '\n' {
        } else if c == '\r' {
            out.push('\n');
            assert(out@ + rest == old_out_plus(out@, rest));
        } else {
            out.push(c);
            assert(out@ + rest == old_out_plus(out@, rest));
        }
        i += 1;
    }
    assert(s@.skip(i as int) =~= Seq::<char>::empty());
    assert(out@ + Seq::<char>::empty() == out@);
    out
}

spec fn old_out_plus(o: Seq<char>, r: Seq<char>) -> Seq<char> {
    o.drop_last() + (seq![o.last()] + r)
}

fn scrub_pass(s: &[char]) -> (out: Vec<char>)
    ensures
        out@ == scrub_invisible(s@),
{
    let mut out: Vec<char> = Vec::new();
    let mut i: usize = 0;
    assert(s@.skip(0) == s@);
    while i < s.len()
        invariant
            i <= s.len(),
            scrub_invisible(s@) == out@ + scrub_invisible(s@.skip(i as int)),
        decreases s.len() - i,
    {
        proof {
            lemma_skip_step(s@, i as int);
        }
        let c = s[i];
        let ghost rest = scrub_invisible(s@.skip(i + 1));
        if c == '\u{200B}' || c == '\u{200C}' || c == '\u{200D}' || c == '\u{2060}' || c
            == '\u{FEFF}' {
        } else if c == '\u{00A0}' {
            out.push(' ');
            assert(out@ + rest == old_out_plus(out@, rest));
        } else {
            out.push(c);
            assert(out@ + rest == old_out_plus(out@, rest));
        }
        i += 1;
    }
    assert(s@.skip(i as int) =~= Seq::<char>::empty());
    assert(out@ + Seq::<char>::empty() == out@);
    out
}

pub open spec fn all_blank(p: Seq<char>) -> bool {
    forall|i: int| 0 <= i < p.len() ==> is_blank(#[trigger] p[i])
}

proof fn lemma_blank_prefix_ends_line(p: Seq<char>, t: Seq<char>)
    requires
        all_blank(p),
    ensures
        blank_run_ends_line(p + t) == blank_run_ends_line(t),
    decreases p.len(),
{
    if p.len() > 0 {
        assert((p + t)[0] == p[0]);
        assert((p + t).drop_first() =~= p.drop_first() + t);
        lemma_blank_prefix_ends_line(p.drop_first(), t);
    } else {
        assert(p + t =~= t);
    }
}

/// Blanks before a line end disappear.
proof fn lemma_trim_blank_prefix_dropped(p: Seq<char>, t: Seq<char>)
    requires
        all_blank(p),
        blank_run_ends_line(t),
    ensures
        trim_line_ends(p + t) == trim_line_ends(t),
    decreases p.len(),
{
    if p.len() > 0 {
        assert((p + t)[0] == p[0]);
        assert((p + t).drop_first() =~= p.drop_first() + t);
        lemma_blank_prefix_ends_line(p, t);
        lemma_trim_blank_prefix_dropped(p.drop_first(), t);
    } else {
        assert(p + t =~= t);
    }
}

/// Blanks before other text on the same line are kept.
proof fn lemma_trim_blank_prefix_kept(p: Seq<char>, t: Seq<char>)
    requires
        all_blank(p),
        !blank_run_ends_line(t),
    ensures
        trim_line_ends(p + t) == p + trim_line_ends(t),
    decreases p.len(),
{
    if p.len() > 0 {
        assert((p + t)[0] == p[0]);
        assert((p + t).drop_first() =~= p.drop_first() + t);
        lemma_blank_prefix_ends_line(p, t);
        lemma_trim_blank_prefix_kept(p.drop_first(), t);
        assert(p + trim_line_ends(t) =~= seq![p[0]] + (p.drop_first() + trim_line_ends(t)));
    } else {
        assert(p + t =~= t);
        assert(p + trim_line_ends(t) =~= trim_line_ends(t));
    }
}

fn trim_lines_pass(s: &[char]) -> (out: Vec<char>)
    ensures
        out@ == trim_line_ends(s@),
{
    let mut out: Vec<char> = Vec::new();
    let mut pending: Vec<char> = Vec::new();
    let mut i: usize = 0;
    assert(s@.skip(0) == s@);
    assert(pending@ + s@ =~= s@);
    while i < s.len()
        invariant
            i <= s.len(),
            all_blank(pending@),
            trim_line_ends(s@) == out@ + trim_line_ends(pending@ + s@.skip(i as int)),
        decreases s.len() - i,
    {
        proof {
            lemma_skip_step(s@, i as int);
        }
        let c = s[i];
        let ghost t = s@.skip(i as int);
        let ghost rest = s@.skip(i + 1);
        if c == ' ' || c == '\t' {
            let ghost old_pending = pending@;
            pending.push(c);
            assert(pending@ + rest =~= old_pending + t);
        } else if c == '\n' {
            proof {
                lemma_trim_blank_prefix_dropped(pending@, t);
                assert(trim_line_ends(t) == seq!['\n'] + trim_line_ends(rest));
            }
            let ghost old_out = out@;
            out.push('\n');
            pending = Vec::new();
            assert(pending@ + rest =~= rest);
            assert(old_out + (seq!['\n'] + trim_line_ends(rest)) =~= out@ + trim_line_ends(rest));
        } else {
            proof {
                lemma_trim_blank_prefix_kept(pending@, t);
                assert(trim_line_ends(t) == seq![c] + trim_line_ends(rest));
            }
            let ghost old_out = out@;
            let ghost old_pending = pending@;
            let plen = pending.len();
            push_range(&mut out, &pending, 0, plen);
            assert(pending@.subrange(0, plen as int) =~= pending@);
            out.push(c);
            pending = Vec::new();
            assert(pending@ + rest =~= rest);
            assert(old_out + (old_pending + (seq![c] + trim_line_ends(rest))) =~= out@
                + trim_line_ends(rest));
        }
        i += 1;
    }
    proof {
        assert(s@.skip(i as int) =~= Seq::<char>::empty());
        assert(pending@ + s@.skip(i as int) =~= pending@ + Seq::<char>::empty());
        lemma_trim_blank_prefix_dropped(pending@, Seq::<char>::empty());
        assert(pending@ + Seq::<char>::empty() =~= pending@);
        assert(out@ + Seq::<char>::empty() == out@);
    }
    out
}

fn strip_newlines_pass(s: Vec<char>) -> (out: Vec<char>)
    ensures
        out@ == strip_trailing_newlines(s@),
{
    let mut out = s;
    while out.len() > 0 && out[out.len() - 1] == '\n'
        invariant
            strip_trailing_newlines(s@) == strip_trailing_newlines(out@),
        decreases out.len(),
    {
        out.pop();
    }
    out
}

fn normalize_chars(text: &[char]) -> (out: Vec<char>)
    ensures
        out@ == normalized_text(text@),
{
    let a = unify_pass(text);
    let b = scrub_pass(&a);
    let c = trim_lines_pass(&b);
    strip_newlines_pass(c)
}

/// Normalises text so that semantically equivalent clipboard text (line endings,
/// zero-width characters, trailing spaces and tabs) hashes alike.
pub fn normalize_semantic_text(text: &str) -> (out: String)
    ensures
        out@ == normalized_text(text@),
{
    let chars = chars_of(text);
    let n = normalize_chars(&chars);
    string_of(&n)
}


// ---------------------------------------------------------------- what normalising leaves

/// A character that normalised text never holds: a carriage return, a zero-width
/// character or a no-break space.
pub open spec fn clean_char(c: char) -> bool {
    c != '\r' && !is_zero_width(c) && c != '\u{00A0}'
}

pub open spec fn all_clean(s: Seq<char>) -> bool {
    forall|i: int| 0 <= i < s.len() ==> clean_char(#[trigger] s[i])
}

pub open spec fn no_cr(s: Seq<char>) -> bool {
    forall|i: int| 0 <= i < s.len() ==> #[trigger] s[i] != '\r'
}

/// No line of `s` ends in a space or a tab: from every blank, the run of blanks
/// reaches some other character before the end of its line.
pub open spec fn no_trailing_blanks(s: Seq<char>) -> bool {
    forall|i: int| 0 <= i < s.len() && is_blank(#[trigger] s[i]) ==> !blank_run_ends_line(s.skip(i))
}

proof fn lemma_cons_index(c: char, z: Seq<char>, i: int)
    requires
        0 < i <= z.len(),
    ensures
        (seq![c] + z)[i] == z[i - 1],
        (seq![c] + z).skip(i) == z.skip(i - 1),
{
    assert((seq![c] + z).skip(i) =~= z.skip(i - 1));
}

proof fn lemma_cons_head(c: char, z: Seq<char>)
    ensures
        (seq![c] + z)[0] == c,
        (seq![c] + z).drop_first() == z,
        (seq![c] + z).skip(0) == seq![c] + z,
        (seq![c] + z).len() == z.len() + 1,
{
    assert((seq![c] + z).drop_first() =~= z);
    assert((seq![c] + z).skip(0) =~= seq![c] + z);
}

proof fn lemma_unify_no_cr(s: Seq<char>)
    ensures
        no_cr(unify_line_endings(s)),
    decreases s.len(),
{
    if s.len() > 0 {
        lemma_unify_no_cr(s.drop_first());
        let r = unify_line_endings(s.drop_first());
        let t = unify_line_endings(s);
        if !(s[0] == '\r' && s.len() > 1 && s[1] == '\n') {
            let c = if s[0] == '\r' {
                '\n'
            } else {
                s[0]
            };
            assert(t == seq![c] + r);
            assert forall|i: int| 0 <= i < t.len() implies #[trigger] t[i] != '\r' by {
                lemma_cons_head(c, r);
                if i > 0 {
                    lemma_cons_index(c, r, i);
                }
            }
        }
    }
}

proof fn lemma_scrub_clean(s: Seq<char>)
    requires
        no_cr(s),
    ensures
        all_clean(scrub_invisible(s)),
    decreases s.len(),
{
    if s.len() > 0 {
        let d = s.drop_first();
        assert forall|i: int| 0 <= i < d.len() implies #[trigger] d[i] != '\r' by {
            assert(d[i] == s[i + 1]);
        }
        lemma_scrub_clean(d);
        let r = scrub_invisible(d);
        let t = scrub_invisible(s);
        if !is_zero_width(s[0]) {
            let c = if s[0] == '\u{00A0}' {
                ' '
            } else {
                s[0]
            };
            assert(t == seq![c] + r);
            assert forall|i: int| 0 <= i < t.len() implies clean_char(#[trigger] t[i]) by {
                lemma_cons_head(c, r);
                if i > 0 {
                    lemma_cons_index(c, r, i);
                }
            }
        }
    }
}

proof fn lemma_trim_keeps_clean(s: Seq<char>)
    requires
        all_clean(s),
    ensures
        all_clean(trim_line_ends(s)),
    decreases s.len(),
{
    if s.len() > 0 {
        let d = s.drop_first();
        assert forall|i: int| 0 <= i < d.len() implies clean_char(#[trigger] d[i]) by {
            assert(d[i] == s[i + 1]);
        }
        lemma_trim_keeps_clean(d);
        let r = trim_line_ends(d);
        let t = trim_line_ends(s);
        if !(is_blank(s[0]) && blank_run_ends_line(s)) {
            assert(t == seq![s[0]] + r);
            assert forall|i: int| 0 <= i < t.len() implies clean_char(#[trigger] t[i]) by {
                lemma_cons_head(s[0], r);
                if i > 0 {
                    lemma_cons_index(s[0], r, i);
                }
            }
        }
    }
}

/// Trimming line ends does not change whether a blank run reaches the line's end.
proof fn lemma_trim_keeps_run_end(y: Seq<char>)
    ensures
        blank_run_ends_line(trim_line_ends(y)) == blank_run_ends_line(y),
    decreases y.len(),
{
    if y.len() > 0 {
        let d = y.drop_first();
        lemma_trim_keeps_run_end(d);
        let r = trim_line_ends(d);
        if !(is_blank(y[0]) && blank_run_ends_line(y)) {
            lemma_cons_head(y[0], r);
        }
    }
}

proof fn lemma_trim_no_trailing_blanks(s: Seq<char>)
    ensures
        no_trailing_blanks(trim_line_ends(s)),
    decreases s.len(),
{
    if s.len() > 0 {
        let d = s.drop_first();
        lemma_trim_no_trailing_blanks(d);
        let r = trim_line_ends(d);
        let t = trim_line_ends(s);
        if !(is_blank(s[0]) && blank_run_ends_line(s)) {
            assert(t == seq![s[0]] + r);
            lemma_cons_head(s[0], r);
            assert forall|i: int| 0 <= i < t.len() && is_blank(#[trigger] t[i]) implies !blank_run_ends_line(
                t.skip(i),
            ) by {
                if i == 0 {
                    lemma_trim_keeps_run_end(d);
                } else {
                    lemma_cons_index(s[0], r, i);
                }
            }
        }
    }
}

/// A run of blanks reaches its line's end in `a` exactly when it does in `a`
/// followed by newlines.
proof fn lemma_run_end_before_newlines(a: Seq<char>, b: Seq<char>)
    requires
        forall|j: int| 0 <= j < b.len() ==> #[trigger] b[j] == '\n',
    ensures
        blank_run_ends_line(a + b) == blank_run_ends_line(a),
    decreases a.len(),
{
    if a.len() == 0 {
        assert(a + b =~= b);
    } else {
        assert((a + b)[0] == a[0]);
        assert((a + b).drop_first() =~= a.drop_first() + b);
        lemma_run_end_before_newlines(a.drop_first(), b);
    }
}

proof fn lemma_strip_shape(s: Seq<char>)
    ensures
        strip_trailing_newlines(s).len() <= s.len(),
        strip_trailing_newlines(s) == s.take(strip_trailing_newlines(s).len() as int),
        forall|j: int|
            strip_trailing_newlines(s).len() <= j < s.len() ==> #[trigger] s[j] == '\n',
        strip_trailing_newlines(s).len() == 0 || strip_trailing_newlines(s).last() != '\n',
    decreases s.len(),
{
    if s.len() > 0 && s.last() == '\n' {
        let dl = s.drop_last();
        lemma_strip_shape(dl);
        let r = strip_trailing_newlines(dl);
        assert(s.take(r.len() as int) =~= dl.take(r.len() as int));
        assert forall|j: int| r.len() <= j < s.len() implies #[trigger] s[j] == '\n' by {
            if j < dl.len() {
                assert(s[j] == dl[j]);
            }
        }
    } else {
        assert(s.take(s.len() as int) =~= s);
    }
}

proof fn lemma_strip_keeps_shape(s: Seq<char>)
    requires
        all_clean(s),
        no_trailing_blanks(s),
    ensures
        all_clean(strip_trailing_newlines(s)),
        no_trailing_blanks(strip_trailing_newlines(s)),
{
    lemma_strip_shape(s);
    let r = strip_trailing_newlines(s);
    let tail = s.skip(r.len() as int);
    assert forall|j: int| 0 <= j < tail.len() implies #[trigger] tail[j] == '\n' by {
        assert(tail[j] == s[r.len() + j]);
    }
    assert forall|i: int| 0 <= i < r.len() implies clean_char(#[trigger] r[i]) by {
        assert(r[i] == s[i]);
    }
    assert forall|i: int| 0 <= i < r.len() && is_blank(#[trigger] r[i]) implies !blank_run_ends_line(
        r.skip(i),
    ) by {
        assert(r[i] == s[i]);
        assert(s.skip(i) =~= r.skip(i) + tail);
        lemma_run_end_before_newlines(r.skip(i), tail);
    }
}

proof fn lemma_unify_settled(s: Seq<char>)
    requires
        no_cr(s),
    ensures
        unify_line_endings(s) == s,
    decreases s.len(),
{
    if s.len() > 0 {
        let d = s.drop_first();
        assert forall|i: int| 0 <= i < d.len() implies #[trigger] d[i] != '\r' by {
            assert(d[i] == s[i + 1]);
        }
        lemma_unify_settled(d);
        assert(seq![s[0]] + d =~= s);
    }
}

proof fn lemma_scrub_settled(s: Seq<char>)
    requires
        all_clean(s),
    ensures
        scrub_invisible(s) == s,
    decreases s.len(),
{
    if s.len() > 0 {
        let d = s.drop_first();
        assert forall|i: int| 0 <= i < d.len() implies clean_char(#[trigger] d[i]) by {
            assert(d[i] == s[i + 1]);
        }
        lemma_scrub_settled(d);
        assert(clean_char(s[0]));
        assert(seq![s[0]] + d =~= s);
    }
}

proof fn lemma_trim_settled(s: Seq<char>)
    requires
        no_trailing_blanks(s),
    ensures
        trim_line_ends(s) == s,
    decreases s.len(),
{
    if s.len() > 0 {
        let d = s.drop_first();
        assert forall|i: int| 0 <= i < d.len() && is_blank(#[trigger] d[i]) implies !blank_run_ends_line(
            d.skip(i),
        ) by {
            assert(d[i] == s[i + 1]);
            assert(d.skip(i) =~= s.skip(i + 1));
        }
        lemma_trim_settled(d);
        assert(s.skip(0) =~= s);
        assert(seq![s[0]] + d =~= s);
    }
}

/// Normalised text is settled: it holds no carriage return, zero-width character or
/// no-break space, no line of it ends in a space or a tab, it does not end with a
/// newline, and normalising it again changes nothing.
pub proof fn lemma_normalized_text_is_settled(s: Seq<char>)
    ensures
        all_clean(normalized_text(s)),
        no_trailing_blanks(normalized_text(s)),
        normalized_text(s).len() == 0 || normalized_text(s).last() != '\n',
        normalized_text(normalized_text(s)) == normalized_text(s),
{
    let u = unify_line_endings(s);
    lemma_unify_no_cr(s);
    lemma_scrub_clean(u);
    let c = scrub_invisible(u);
    lemma_trim_keeps_clean(c);
    lemma_trim_no_trailing_blanks(c);
    let t = trim_line_ends(c);
    lemma_strip_keeps_shape(t);
    lemma_strip_shape(t);
    let r = strip_trailing_newlines(t);
    assert(no_cr(r)) by {
        assert forall|i: int| 0 <= i < r.len() implies #[trigger] r[i] != '\r' by {
            assert(clean_char(r[i]));
        }
    }
    lemma_unify_settled(r);
    lemma_scrub_settled(r);
    lemma_trim_settled(r);
}

// ---------------------------------------------------------------- hashing

/// Hex digest of `prefix` followed by `bytes`.
pub fn hash_with_prefix(prefix: &[u8], bytes: &[u8]) -> (hex: String)
    ensures
        hex@ == blake3_hex_digest(prefix@ + bytes@),
        crate::hashing::is_hex_digest(hex@),
{
    let mut input: Vec<u8> = Vec::new();
    let mut i: usize = 0;
    while i < prefix.len()
        invariant
            i <= prefix.len(),
            input@ == prefix@.take(i as int),
        decreases prefix.len() - i,
    {
        input.push(prefix[i]);
        i += 1;
        assert(prefix@.take(i as int) == prefix@.take(i - 1).push(prefix@[i - 1]));
    }
    assert(prefix@.take(prefix.len() as int) == prefix@);
    let mut j: usize = 0;
    while j < bytes.len()
        invariant
            j <= bytes.len(),
            input@ == prefix@ + bytes@.take(j as int),
        decreases bytes.len() - j,
    {
        input.push(bytes[j]);
        j += 1;
        assert(bytes@.take(j as int) == bytes@.take(j - 1).push(bytes@[j - 1]));
        assert(prefix@ + bytes@.take(j as int) == (prefix@ + bytes@.take(j - 1)).push(
            bytes@[j - 1],
        ));
    }
    assert(bytes@.take(bytes.len() as int) == bytes@);
    blake3_hex(&input)
}

/// Digest of the normalised text, or `None` when nothing is left after normalising.
pub fn semantic_hash_from_text(text: &str) -> (r: Option<String>)
    ensures
        match r {
            Some(h) => semantic_hash_spec(text@) == Some(h@) && crate::hashing::is_hex_digest(h@),
            None => semantic_hash_spec(text@) is None,
        },
{
    let chars = chars_of(text);
    let n = normalize_chars(&chars);
    if n.len() == 0 {
        return None;
    }
    let normalized = string_of(&n);
    let tag: Vec<u8> = vec![116u8, 101u8, 120u8, 116u8, 58u8];
    assert(tag@ == text_tag());
    let bytes = normalized.as_str().as_bytes();
    Some(hash_with_prefix(&tag, bytes))
}

/// The semantic hash depends on the normalised text alone: there is none exactly when
/// nothing is left after normalising, and texts that normalise alike hash alike.
pub proof fn lemma_semantic_hash_of_normalized_text(a: Seq<char>, b: Seq<char>)
    ensures
        semantic_hash_spec(a) is None <==> normalized_text(a).len() == 0,
        normalized_text(a) == normalized_text(b) ==> semantic_hash_spec(a) == semantic_hash_spec(b),
{
}

/// `content_type` names text, HTML or RTF, up to ASCII case.
pub open spec fn is_text_like_type(content_type: Seq<char>) -> bool {
    ||| eq_ci(content_type, seq!['t', 'e', 'x', 't'])
    ||| eq_ci(content_type, seq!['h', 't', 'm', 'l'])
    ||| eq_ci(content_type, seq!['r', 't', 'f'])
}

pub open spec fn eq_ci(a: Seq<char>, b: Seq<char>) -> bool {
    crate::text::eq_ignore_ascii_case(a, b)
}

/// Whether an item's semantic hash is that of its text: the item is text-like and its
/// text is not blank once normalised.
pub open spec fn uses_text_hash(content_type: Seq<char>, text_content: Option<Seq<char>>) -> bool {
    is_text_like_type(content_type) && text_content is Some && semantic_hash_spec(
        text_content->0,
    ) is Some
}

/// The semantic hash stored for an item: that of its text for text-like items with
/// non-blank text, its content hash otherwise.
pub open spec fn compute_semantic_hash_spec(
    content_type: Seq<char>,
    text_content: Option<Seq<char>>,
    content_hash: Seq<char>,
) -> Seq<char> {
    if is_text_like_type(content_type) && text_content is Some && semantic_hash_spec(
        text_content->0,
    ) is Some {
        semantic_hash_spec(text_content->0)->0
    } else {
        content_hash
    }
}

pub fn compute_semantic_hash(content_type: &str, text_content: Option<&str>, content_hash: &str)
    -> (h: String)
    ensures
        h@ == compute_semantic_hash_spec(
            content_type@,
            match text_content {
                Some(t) => Some(t@),
                None => None,
            },
            content_hash@,
        ),
        uses_text_hash(
            content_type@,
            match text_content {
                Some(t) => Some(t@),
                None => None,
            },
        ) ==> crate::hashing::is_hex_digest(h@),
{
    let ct = chars_of(content_type);
    let text_kw: Vec<char> = vec!['t', 'e', 'x', 't'];
    let html_kw: Vec<char> = vec!['h', 't', 'm', 'l'];
    let rtf_kw: Vec<char> = vec!['r', 't', 'f'];
    let is_text_like = crate::text::eq_ignore_ascii_case_chars(&ct, &text_kw)
        || crate::text::eq_ignore_ascii_case_chars(&ct, &html_kw)
        || crate::text::eq_ignore_ascii_case_chars(&ct, &rtf_kw);
    if is_text_like {
        if let Some(text) = text_content {
            if let Some(hash) = semantic_hash_from_text(text) {
                return hash;
            }
        }
    }
    string_of(&chars_of(content_hash))
}

// ---------------------------------------------------------------- URL detection

pub open spec fn http_scheme() -> Seq<char> {
    seq!['h', 't', 't', 'p', ':', '/', '/']
}

pub open spec fn https_scheme() -> Seq<char> {
    seq!['h', 't', 't', 'p', 's', ':', '/', '/']
}

pub open spec fn ftp_scheme() -> Seq<char> {
    seq!['f', 't', 'p', ':', '/', '/']
}

pub open spec fn www_prefix() -> Seq<char> {
    seq!['w', 'w', 'w', '.']
}

/// A host part: not empty and containing a dot.
pub open spec fn has_domain(host: Seq<char>) -> bool {
    host.len() > 0 && host.contains('.')
}

pub open spec fn has_no_white_space(t: Seq<char>) -> bool {
    forall|i: int| 0 <= i < t.len() ==> !is_white_space(#[trigger] t[i])
}

/// The trimmed text is a single word starting with `http://`, `https://`, `ftp://`
/// or `www.` (any ASCII case) followed by a host containing a dot.
pub open spec fn is_url_spec(text: Seq<char>) -> bool {
    let t = trim(text);
    &&& t.len() > 0
    &&& has_no_white_space(t)
    &&& {
        ||| starts_with_ci(t, http_scheme()) && has_domain(t.skip(7))
        ||| starts_with_ci(t, https_scheme()) && has_domain(t.skip(8))
        ||| starts_with_ci(t, ftp_scheme()) && has_domain(t.skip(6))
        ||| starts_with_ci(t, www_prefix()) && has_domain(t.skip(4))
    }
}

/// `text` starts with `prefix`, ignoring ASCII case.
pub fn starts_with_ignore_ascii_case(text: &str, prefix: &str) -> (b: bool)
    ensures
        b == starts_with_ci(text@, prefix@),
{
    let t = chars_of(text);
    let p = chars_of(prefix);
    starts_with_ci_chars(&t, &p)
}

fn has_domain_after(t: &[char], k: usize) -> (b: bool)
    requires
        k <= t.len(),
    ensures
        b == has_domain(t@.skip(k as int)),
{
    if k == t.len() {
        return false;
    }
    let mut i: usize = k;
    while i < t.len()
        invariant
            k <= i <= t.len(),
            forall|j: int| k <= j < i ==> t@[j] != '.',
        decreases t.len() - i,
    {
        if t[i] == '.' {
            assert(t@.skip(k as int)[i - k] == '.');
            return true;
        }
        i += 1;
    }
    assert forall|j: int| 0 <= j < t@.skip(k as int).len() implies t@.skip(k as int)[j] != '.' by {
        assert(t@.skip(k as int)[j] == t@[k + j]);
    }
    false
}

/// Whether plain text is a single-line URL: one word (once trimmed) that starts with
/// `http://`, `https://`, `ftp://` or `www.`, in any ASCII case, followed by a host
/// with a dot.
pub fn is_url(text: &str) -> (b: bool)
    ensures
        b == is_url_spec(text@),
{
    let chars = chars_of(text);
    let t = trim_chars(&chars);
    assert(t@ == trim(text@));
    if t.len() == 0 {
        return false;
    }
    let mut i: usize = 0;
    while i < t.len()
        invariant
            i <= t.len(),
            t@ == trim(text@),
            forall|j: int| 0 <= j < i ==> !is_white_space(#[trigger] t@[j]),
        decreases t.len() - i,
    {
        if is_white_space_char(t[i]) {
            assert(!has_no_white_space(t@));
            return false;
        }
        i += 1;
    }
    let http: Vec<char> = vec!['h', 't', 't', 'p', ':', '/', '/'];
    let https: Vec<char> = vec!['h', 't', 't', 'p', 's', ':', '/', '/'];
    let ftp: Vec<char> = vec!['f', 't', 'p', ':', '/', '/'];
    let www: Vec<char> = vec!['w', 'w', 'w', '.'];
    assert(http@ == http_scheme());
    assert(https@ == https_scheme());
    assert(ftp@ == ftp_scheme());
    assert(www@ == www_prefix());
    proof {
        lemma_schemes_exclusive(t@);
    }
    if starts_with_ci_chars(&t, &http) {
        return has_domain_after(&t, 7);
    }
    if starts_with_ci_chars(&t, &https) {
        return has_domain_after(&t, 8);
    }
    if starts_with_ci_chars(&t, &ftp) {
        return has_domain_after(&t, 6);
    }
    if starts_with_ci_chars(&t, &www) {
        return has_domain_after(&t, 4);
    }
    false
}

/// The recognised URL prefixes exclude one another.
proof fn lemma_schemes_exclusive(t: Seq<char>)
    ensures
        starts_with_ci(t, http_scheme()) ==> !starts_with_ci(t, https_scheme()) && !starts_with_ci(
            t,
            ftp_scheme(),
        ) && !starts_with_ci(t, www_prefix()),
        starts_with_ci(t, https_scheme()) ==> !starts_with_ci(t, ftp_scheme()) && !starts_with_ci(
            t,
            www_prefix(),
        ),
        starts_with_ci(t, ftp_scheme()) ==> !starts_with_ci(t, www_prefix()),
{
    if starts_with_ci(t, http_scheme()) {
        assert(t.take(7)[4] == t[4]);
        assert(t.take(7)[0] == t[0]);
        assert(crate::text::ascii_lower(t.take(7)[4]) == ':');
        if t.len() >= 8 {
            assert(t.take(8)[4] == t[4]);
            assert(t.take(8)[0] == t[0]);
        }
        assert(t.take(6)[0] == t[0]);
        assert(t.take(4)[0] == t[0]);
    }
    if starts_with_ci(t, https_scheme()) {
        assert(t.take(8)[0] == t[0]);
        assert(t.take(6)[0] == t[0]);
        assert(t.take(4)[0] == t[0]);
    }
    if starts_with_ci(t, ftp_scheme()) {
        assert(t.take(6)[0] == t[0]);
        assert(t.take(4)[0] == t[0]);
    }
}

} // verus!
