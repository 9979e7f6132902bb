//! The application that put content on the clipboard: the name shown for it and the
//! key under which its icon is cached.
//!
//! Executable paths are Windows paths: `/` and `\` separate components and a leading
//! drive (`C:`) is a prefix.
use vstd::prelude::*;
use crate::data_transfer::{dot_dot, is_named, named_pieces, pieces};
use crate::text::{chars_of, last_index, last_index_of, string_of, unicode_to_lowercase};

verus! {

/// `p` without a leading drive (`C:`).
pub open spec fn without_drive(p: Seq<char>) -> Seq<char> {
    if p.len() >= 2 && (('a' <= p[0] <= 'z') || ('A' <= p[0] <= 'Z')) && p[1] == ':' {
        p.skip(2)
    } else {
        p
    }
}

/// The last component of a path, unless it is `..` or the path names none.
pub open spec fn file_name_spec(p: Seq<char>) -> Option<Seq<char>> {
    let segs = named_pieces(pieces(without_drive(p)));
    if segs.len() == 0 || segs.last() == dot_dot() {
        None
    } else {
        Some(segs.last())
    }
}

/// A file name without its extension: the part before the last `.`, unless that
/// dot is the first character or there is none.
pub open spec fn file_stem_spec(name: Seq<char>) -> Seq<char> {
    let k = last_index(name, '.');
    if k <= 0 {
        name
    } else {
        name.take(k)
    }
}

fn without_drive_chars(p: &[char]) -> (out: Vec<char>)
    ensures
        out@ == without_drive(p@),
{
    if p.len() >= 2 && ((p[0] >= 'a' && p[0] <= 'z') || (p[0] >= 'A' && p[0] <= 'Z')) && p[1] == ':' {
        let out = crate::text::copy_chars(&p[2..p.len()]);
        assert(out@ =~= p@.skip(2));
        out
    } else {
        crate::text::copy_chars(p)
    }
}

/// The named components of `p` (empty pieces and `.` dropped), in order.
fn named_components(p: &[char]) -> (out: Vec<Vec<char>>)
    ensures
        crate::text::char_views(out@) == named_pieces(pieces(p@)),
{
    let mut segs: Vec<Vec<char>> = Vec::new();
    let mut cur: Vec<char> = Vec::new();
    let ghost mut done: Seq<Seq<char>> = seq![];
    let mut i: usize = 0;
    while i < p.len()
        invariant
            i <= p@.len(),
            pieces(p@.take(i as int)) == done.push(cur@),
            crate::text::char_views(segs@) == named_pieces(done),
        decreases p.len() - i,
    {
        let c = p[i];
        assert(p@.take(i + 1).drop_last() =~= p@.take(i as int));
        assert(p@.take(i + 1).last() == c);
        if c == '/' || c == '\\' {
            let ghost finished = cur@;
            proof {
                assert(done.push(finished).drop_last() =~= done);
                reveal(Seq::filter);
            }
            if named_chars(&cur) {
                let ghost old_segs = segs@;
                segs.push(cur);
                proof {
                    crate::text::lemma_char_views_push(old_segs, segs@.last());
                }
            }
            cur = Vec::new();
            proof {
                done = done.push(finished);
            }
            assert(pieces(p@.take(i + 1)) =~= done.push(cur@));
        } else {
            cur.push(c);
            assert(pieces(p@.take(i + 1)) =~= done.push(cur@));
        }
        i += 1;
    }
    assert(p@.take(i as int) =~= p@);
    let ghost finished = cur@;
    proof {
        assert(done.push(finished).drop_last() =~= done);
        reveal(Seq::filter);
    }
    if named_chars(&cur) {
        let ghost old_segs = segs@;
        segs.push(cur);
        proof {
            crate::text::lemma_char_views_push(old_segs, segs@.last());
        }
    }
    segs
}

fn named_chars(p: &Vec<char>) -> (r: bool)
    ensures
        r == is_named(p@),
{
    if p.len() == 0 {
        false
    } else if p.len() == 1 && p[0] == '.' {
        assert(p@ =~= seq!['.']);
        false
    } else {
        if p.len() != 1 {
            assert(p@.len() != seq!['.'].len());
        }
        true
    }
}

/// The last component of a Windows path (see `file_name_spec`).
pub fn file_name_of(path: &str) -> (r: Option<String>)
    ensures
        match r {
            Some(n) => file_name_spec(path@) == Some(n@),
            None => file_name_spec(path@) is None,
        },
{
    let p = chars_of(path);
    let rest = without_drive_chars(p.as_slice());
    let segs = named_components(rest.as_slice());
    if segs.len() == 0 {
        return None;
    }
    let last = &segs[segs.len() - 1];
    assert(crate::text::char_views(segs@).last() == last@);
    if last.len() == 2 && last[0] == '.' && last[1] == '.' {
        assert(last@ =~= dot_dot());
        return None;
    }
    if last.len() == 2 {
        assert(last@ != dot_dot()) by {
            if last@ == dot_dot() {
                assert(last@[0] == '.' && last@[1] == '.');
            }
        }
    }
    Some(string_of(last.as_slice()))
}

/// A file name without its extension (see `file_stem_spec`).
pub fn file_stem_of(name: &str) -> (s: String)
    ensures
        s@ == file_stem_spec(name@),
{
    let n = chars_of(name);
    match last_index_of(n.as_slice(), '.') {
        Some(k) => {
            proof {
                crate::text::lemma_last_index(n@, '.');
            }
            if k == 0 {
                name.to_owned()
            } else {
                let mut out: Vec<char> = Vec::new();
                crate::text::push_range(&mut out, n.as_slice(), 0, k);
                assert(out@ =~= name@.take(k as int));
                string_of(out.as_slice())
            }
        },
        None => name.to_owned(),
    }
}

/// The name shown for an application when its executable has no description: the
/// file stem of the executable, or `Unknown`.
pub open spec fn display_name_spec(exe_path: Seq<char>) -> Seq<char> {
    match file_name_spec(exe_path) {
        Some(n) => file_stem_spec(n),
        None => "Unknown"@,
    }
}

/// The name shown for an application from its executable path: the file stem, or
/// `Unknown` when the path names no file.
pub fn get_app_display_name_pub(exe_path: &str) -> (name: String)
    ensures
        name@ == display_name_spec(exe_path@),
{
    match file_name_of(exe_path) {
        Some(n) => file_stem_of(n.as_str()),
        None => "Unknown".to_owned(),
    }
}

/// The name shown for an application: its executable's description when it has a
/// non-empty one, else as `get_app_display_name_pub`.
pub fn display_name_with_description(description: Option<&str>, exe_path: &str) -> (name: String)
    ensures
        name@ == match description {
            Some(d) => if d@.len() > 0 {
                d@
            } else {
                display_name_spec(exe_path@)
            },
            None => display_name_spec(exe_path@),
        },
{
    match description {
        Some(d) => if !d.is_empty() {
            d.to_owned()
        } else {
            get_app_display_name_pub(exe_path)
        },
        None => get_app_display_name_pub(exe_path),
    }
}

/// The key under which an application's icon is cached: the first twelve hex digits
/// of the BLAKE3 digest of its lower-cased executable path.
pub fn compute_icon_cache_key_pub(exe_path: &str) -> (key: String)
    ensures
        key@ == crate::hashing::blake3_hex_digest(
            vstd::utf8::encode_utf8(unicode_to_lowercase(exe_path@)),
        ).take(12),
        key@.len() == 12,
        forall|i: int| 0 <= i < 12 ==> crate::hashing::is_lower_hex_digit(#[trigger] key@[i]),
{
    let lower = exe_path.to_lowercase();
    let hex = crate::hashing::blake3_hex(lower.as_str().as_bytes());
    let h = chars_of(hex.as_str());
    let mut out: Vec<char> = Vec::new();
    crate::text::push_range(&mut out, h.as_slice(), 0, 12);
    assert(out@ =~= hex@.take(12));
    string_of(out.as_slice())
}

/// The file an application's icon is cached in, inside the icons directory.
pub fn icon_file_name(cache_key: &str) -> (name: String)
    ensures
        name@ == cache_key@ + ".png"@,
{
    let mut out = chars_of(cache_key);
    let ext = chars_of(".png");
    crate::text::append_chars(&mut out, ext.as_slice());
    string_of(out.as_slice())
}

/// A pixel buffer in BGRA order turned to RGBA: in every whole four-byte pixel the
/// first and third bytes trade places; bytes after the last whole pixel stay.
pub open spec fn rgba_from_bgra(bgra: Seq<u8>) -> Seq<u8> {
    Seq::new(
        bgra.len(),
        |i: int|
            if i >= bgra.len() - bgra.len() % 4 {
                bgra[i]
            } else if i % 4 == 0 {
                bgra[i + 2]
            } else if i % 4 == 2 {
                bgra[i - 2]
            } else {
                bgra[i]
            },
    )
}

/// Turns an icon's BGRA pixels into RGBA in place (see `rgba_from_bgra`).
pub fn bgra_to_rgba(pixels: &mut Vec<u8>)
    ensures
        final(pixels)@ == rgba_from_bgra(old(pixels)@),
{
    let ghost orig = pixels@;
    let n = pixels.len();
    let whole = n - n % 4;
    let mut k: usize = 0;
    while k < whole
        invariant
            n == orig.len(),
            pixels@.len() == n,
            whole == n - n % 4,
            k % 4 == 0,
            k <= whole,
            forall|i: int| 0 <= i < k ==> #[trigger] pixels@[i] == rgba_from_bgra(orig)[i],
            forall|i: int| k <= i < n ==> #[trigger] pixels@[i] == orig[i],
        decreases whole - k,
    {
        let b = pixels[k];
        let r = pixels[k + 2];
        pixels.set(k, r);
        pixels.set(k + 2, b);
        proof {
            assert forall|i: int| 0 <= i < k + 4 implies #[trigger] pixels@[i] == rgba_from_bgra(
                orig,
            )[i] by {
                if i >= k {
                    assert(i % 4 == i - k);
                }
            }
        }
        k += 4;
    }
    proof {
        assert forall|i: int| 0 <= i < n implies #[trigger] pixels@[i] == rgba_from_bgra(orig)[i] by {
            if i >= k {
                assert(i >= orig.len() - orig.len() % 4);
            }
        }
        assert(pixels@ =~= rgba_from_bgra(orig));
    }
}

} // verus!
