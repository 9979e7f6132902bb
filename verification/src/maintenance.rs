//! Upkeep of stored data: renumbering favourites, backfilling semantic hashes, moving
//! settings stored under old names, taking over the settings of an older database,
//! reading window-placement settings, and the raw RTF read from the clipboard.
use vstd::prelude::*;
use crate::dedup::{compute_semantic_hash, compute_semantic_hash_spec};
use crate::positioning::{position_mode_spec, PositionMode};
use crate::text::chars_of;

verus! {

/// The new favourite order of each favourite, listed in display order (first shown
/// first): the first gets the count, each next one less, the last 1.
pub fn favorite_orders(ids: &[i64]) -> (out: Vec<(i64, i64)>)
    requires
        ids@.len() <= i64::MAX,
    ensures
        out@.len() == ids@.len(),
        forall|i: int|
            0 <= i < ids@.len() ==> (#[trigger] out@[i]).0 == ids@[i] && out@[i].1 == ids@.len()
                - i,
        forall|i: int, j: int|
            0 <= i < j < out@.len() ==> (#[trigger] out@[i]).1 > (#[trigger] out@[j]).1 >= 1,
{
    let total = ids.len() as i64;
    let mut out: Vec<(i64, i64)> = Vec::new();
    let mut i: usize = 0;
    while i < ids.len()
        invariant
            i <= ids@.len(),
            total == ids@.len(),
            out@.len() == i,
            forall|j: int|
                0 <= j < i ==> (#[trigger] out@[j]).0 == ids@[j] && out@[j].1 == ids@.len() - j,
        decreases ids.len() - i,
    {
        out.push((ids[i], total - i as i64));
        i += 1;
    }
    out
}

/// A stored item whose semantic hash may be missing or stale.
#[derive(Debug, Clone)]
pub struct BackfillRow {
    pub id: i64,
    pub content_type: String,
    pub text_content: Option<String>,
    pub content_hash: String,
    pub semantic_hash: Option<String>,
}

pub open spec fn opt_view(s: Option<String>) -> Option<Seq<char>> {
    match s {
        Some(t) => Some(t@),
        None => None,
    }
}

/// The semantic hash a stored item should have.
pub open spec fn expected_semantic_hash(r: BackfillRow) -> Seq<char> {
    compute_semantic_hash_spec(r.content_type@, opt_view(r.text_content), r.content_hash@)
}

/// The rows whose semantic hash differs from the one they should have.
pub open spec fn stale_rows(rows: Seq<BackfillRow>) -> Seq<BackfillRow> {
    rows.filter(|r: BackfillRow| opt_view(r.semantic_hash) != Some(expected_semantic_hash(r)))
}

fn opt_as_str(s: &Option<String>) -> (r: Option<&str>)
    ensures
        match r {
            Some(t) => s is Some && t@ == s->0@,
            None => s is None,
        },
{
    match s {
        Some(t) => Some(t.as_str()),
        None => None,
    }
}

/// The updates that set each row's semantic hash to the one it should have, for the
/// rows where it differs, in order.
pub fn semantic_hash_updates(rows: &[BackfillRow]) -> (out: Vec<(i64, String)>)
    ensures
        out@.len() == stale_rows(rows@).len(),
        forall|i: int|
            0 <= i < out@.len() ==> (#[trigger] out@[i]).0 == stale_rows(rows@)[i].id
                && out@[i].1@ == expected_semantic_hash(stale_rows(rows@)[i]),
{
    let mut out: Vec<(i64, String)> = Vec::new();
    let mut i: usize = 0;
    while i < rows.len()
        invariant
            i <= rows@.len(),
            out@.len() == stale_rows(rows@.take(i as int)).len(),
            forall|j: int|
                0 <= j < out@.len() ==> (#[trigger] out@[j]).0 == stale_rows(rows@.take(i as int))[j].id
                    && out@[j].1@ == expected_semantic_hash(stale_rows(rows@.take(i as int))[j]),
        decreases rows.len() - i,
    {
        let r = &rows[i];
        let computed = compute_semantic_hash(
            r.content_type.as_str(),
            opt_as_str(&r.text_content),
            r.content_hash.as_str(),
        );
        let same = match &r.semantic_hash {
            Some(h) => {
                let a = chars_of(h.as_str());
                let b = chars_of(computed.as_str());
                crate::text::chars_eq(a.as_slice(), b.as_slice())
            },
            None => false,
        };
        proof {
            reveal(Seq::filter);
            assert(rows@.take(i + 1).drop_last() =~= rows@.take(i as int));
            assert(rows@.take(i + 1).last() == rows@[i as int]);
            assert(computed@ == expected_semantic_hash(rows@[i as int]));
        }
        if !same {
            out.push((r.id, computed));
        }
        i += 1;
    }
    assert(rows@.take(i as int) =~= rows@);
    out
}

// ------------------------------------------------------------------ settings

/// The value to store under a setting's new name: the old value, unless the new name
/// already has a value or the old name has none.
pub fn legacy_setting_value(new_value: Option<&str>, old_value: Option<&str>) -> (r: Option<String>)
    ensures
        match new_value {
            Some(_) => r is None,
            None => match old_value {
                Some(v) => r is Some && r->0@ == v@,
                None => r is None,
            },
        },
{
    match new_value {
        Some(_) => None,
        None => match old_value {
            Some(v) => Some(v.to_owned()),
            None => None,
        },
    }
}

/// The settings that were renamed: old name, new name.
pub fn legacy_setting_names() -> (v: Vec<(String, String)>)
    ensures
        v@.len() == 2,
        v@[0].0@ == "hotkey"@ && v@[0].1@ == "global_shortcut"@,
        v@[1].0@ == "auto_start"@ && v@[1].1@ == "autostart_enabled"@,
{
    vec![
        ("hotkey".to_owned(), "global_shortcut".to_owned()),
        ("auto_start".to_owned(), "autostart_enabled".to_owned()),
    ]
}

/// Whether a setting's key marks it as internal: it starts with `_`.
pub open spec fn internal_key(k: Seq<char>) -> bool {
    k.len() > 0 && k[0] == '_'
}

/// The settings rows of an old database that are carried over: all but the internal
/// ones, in order.
pub open spec fn carried_rows(legacy: Seq<(String, String)>) -> Seq<(String, String)>
    decreases legacy.len(),
{
    if legacy.len() == 0 {
        seq![]
    } else {
        carried_rows(legacy.drop_last()) + if internal_key(legacy.last().0@) {
            seq![]
        } else {
            seq![legacy.last()]
        }
    }
}

/// What the settings store takes over from the settings table of a database when it
/// is opened: the rows to insert (unless their key is present), and whether to record
/// that the take-over has happened.
pub struct LegacySettingsImport {
    pub rows: Vec<(String, String)>,
    pub mark_migrated: bool,
}

/// The rows taken over and whether the take-over is recorded, given whether it was
/// recorded before and whether the settings store is empty.
pub open spec fn legacy_import_spec(
    legacy: Seq<(String, String)>,
    migrated: bool,
    settings_empty: bool,
) -> (Seq<(String, String)>, bool) {
    (if !migrated && settings_empty {
        carried_rows(legacy)
    } else {
        seq![]
    }, !migrated)
}

fn is_internal_key(key: &str) -> (b: bool)
    ensures
        b == internal_key(key@),
{
    let cs = chars_of(key);
    cs.len() > 0 && cs[0] == '_'
}

/// The take-over of an old database's settings: done once, into an empty settings
/// store, leaving out internal keys.
pub fn legacy_settings_import(
    legacy: &[(String, String)],
    migrated: bool,
    settings_empty: bool,
) -> (r: LegacySettingsImport)
    ensures
        (r.rows@, r.mark_migrated) == legacy_import_spec(legacy@, migrated, settings_empty),
{
    let mut rows: Vec<(String, String)> = Vec::new();
    if !migrated && settings_empty {
        let mut i: usize = 0;
        while i < legacy.len()
            invariant
                i <= legacy@.len(),
                rows@ == carried_rows(legacy@.take(i as int)),
            decreases legacy.len() - i,
        {
            let key = &legacy[i].0;
            if !is_internal_key(key.as_str()) {
                rows.push((key.clone(), legacy[i].1.clone()));
            }
            proof {
                assert(legacy@.take(i + 1).drop_last() =~= legacy@.take(i as int));
            }
            i += 1;
        }
        assert(legacy@.take(legacy@.len() as int) =~= legacy@);
    }
    LegacySettingsImport { rows, mark_migrated: !migrated }
}

/// An internal setting is never carried over.
pub proof fn lemma_internal_settings_stay_behind(legacy: Seq<(String, String)>)
    ensures
        forall|k: int|
            0 <= k < carried_rows(legacy).len() ==> !internal_key(
                (#[trigger] carried_rows(legacy)[k]).0@,
            ),
    decreases legacy.len(),
{
    if legacy.len() > 0 {
        lemma_internal_settings_stay_behind(legacy.drop_last());
        let prev = carried_rows(legacy.drop_last());
        let c = carried_rows(legacy);
        assert forall|k: int| 0 <= k < c.len() implies !internal_key((#[trigger] c[k]).0@) by {
            if k < prev.len() {
                assert(c[k] == prev[k]);
            }
        }
    }
}

/// The settings of an old database are taken over at most once: once the take-over is
/// recorded, nothing more is carried and nothing recorded again.
pub proof fn lemma_legacy_settings_taken_over_once(
    first: Seq<(String, String)>,
    later: Seq<(String, String)>,
    empty_first: bool,
    empty_later: bool,
)
    ensures
        legacy_import_spec(first, false, empty_first).1,
        legacy_import_spec(later, true, empty_later).0.len() == 0,
        !legacy_import_spec(later, true, empty_later).1,
{
}

/// A boolean setting that is on unless it is exactly `false`.
pub fn on_unless_false(value: Option<&str>) -> (b: bool)
    ensures
        b == match value {
            Some(v) => v@ != "false"@,
            None => true,
        },
{
    match value {
        Some(v) => {
            let a = chars_of(v);
            let f = chars_of("false");
            !crate::text::chars_eq(a.as_slice(), f.as_slice())
        },
        None => true,
    }
}

/// The placement mode from the settings: the `position_mode` setting when present;
/// else, from the older `follow_cursor` switch, following the cursor unless it is
/// `false` (then the window stays where it was).
pub fn position_mode_from_settings(position_mode: Option<&str>, follow_cursor: Option<&str>) -> (m:
    PositionMode)
    ensures
        m == match position_mode {
            Some(s) => position_mode_spec(s@),
            None => match follow_cursor {
                Some(v) => if v@ != "false"@ {
                    PositionMode::FollowCursor
                } else {
                    PositionMode::FixedPosition
                },
                None => PositionMode::FollowCursor,
            },
        },
{
    match position_mode {
        Some(s) => PositionMode::from_str(s),
        None => if on_unless_false(follow_cursor) {
            PositionMode::FollowCursor
        } else {
            PositionMode::FixedPosition
        },
    }
}

// ------------------------------------------------------------------ RTF

/// The RTF bytes of a clipboard buffer: none for an empty buffer; one trailing NUL
/// byte removed.
pub fn rtf_from_buffer(buf: &[u8]) -> (r: Option<Vec<u8>>)
    ensures
        buf@.len() == 0 ==> r is None,
        buf@.len() > 0 ==> r is Some && r->0@ == if buf@.last() == 0 {
            buf@.drop_last()
        } else {
            buf@
        },
{
    if buf.len() == 0 {
        return None;
    }
    let end = if buf[buf.len() - 1] == 0 {
        buf.len() - 1
    } else {
        buf.len()
    };
    let mut out: Vec<u8> = Vec::new();
    let mut i: usize = 0;
    while i < end
        invariant
            i <= end <= buf@.len(),
            out@ == buf@.take(i as int),
        decreases end - i,
    {
        out.push(buf[i]);
        i += 1;
        assert(out@ =~= buf@.take(i as int));
    }
    assert(buf@.take(end as int) =~= if buf@.last() == 0 {
        buf@.drop_last()
    } else {
        buf@
    });
    Some(out)
}

} // verus!
