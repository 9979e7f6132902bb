//! The paste-slot shortcuts: which shortcuts are registered for the ten slots of a
//! row, and what a press of one does.
//!
//! Pressing a slot's shortcut pastes that slot's item; holding it (the key repeats
//! while still down) pastes again with a plain Ctrl+V. One paste runs at a time: a
//! press while another paste runs, or while one of the program's windows has the focus,
//! is ignored.
use vstd::prelude::*;
use crate::shortcuts::{
    numpad_variant, numpad_variant_str, parse_shortcut, shortcut_spec, ParsedShortcut, PasteKind,
    SLOT_COUNT,
};
use crate::text::{append_chars, chars_of, decimal, decimal_chars, string_of, string_views, trim};

verus! {

// ------------------------------------------------------------------ registration

/// The shortcut text of slot `i` (counted from zero), trimmed; empty when the list is
/// shorter.
pub open spec fn slot_entry(shortcuts: Seq<Seq<char>>, i: int) -> Seq<char> {
    trim(
        if 0 <= i < shortcuts.len() {
            shortcuts[i]
        } else {
            seq![]
        },
    )
}

/// A shortcut to register for a slot (numbered from one), with its numeric-keypad
/// variant when the key is a digit.
#[derive(Debug, Clone, Copy, PartialEq, Eq, Structural)]
pub struct SlotShortcut {
    pub slot: u8,
    pub shortcut: ParsedShortcut,
    pub numpad: Option<ParsedShortcut>,
}

/// The keypad variant of an entry, parsed.
pub open spec fn numpad_spec(entry: Seq<char>) -> Option<ParsedShortcut> {
    match numpad_variant(entry) {
        Some(v) => shortcut_spec(v),
        None => None,
    }
}

/// The shortcuts registered for the first `k` slots.
pub open spec fn registered(shortcuts: Seq<Seq<char>>, k: nat) -> Seq<SlotShortcut>
    decreases k,
{
    if k == 0 {
        seq![]
    } else {
        let e = slot_entry(shortcuts, k - 1);
        registered(shortcuts, (k - 1) as nat) + if e.len() > 0 && shortcut_spec(e) is Some {
            seq![SlotShortcut { slot: k as u8, shortcut: shortcut_spec(e)->0, numpad: numpad_spec(e) }]
        } else {
            seq![]
        }
    }
}

/// The message for a slot whose shortcut does not parse.
pub open spec fn invalid_message(label: Seq<char>, slot: nat, entry: Seq<char>) -> Seq<char> {
    label + " "@ + decimal(slot) + " 快捷键格式无效: "@ + entry
}

/// The slots (numbered from one) of the first `k` whose shortcut does not parse, with
/// their messages.
pub open spec fn invalid(shortcuts: Seq<Seq<char>>, label: Seq<char>, k: nat) -> Seq<(u8, Seq<char>)>
    decreases k,
{
    if k == 0 {
        seq![]
    } else {
        let e = slot_entry(shortcuts, k - 1);
        invalid(shortcuts, label, (k - 1) as nat) + if e.len() > 0 && shortcut_spec(e) is None {
            seq![(k as u8, invalid_message(label, k, e))]
        } else {
            seq![]
        }
    }
}

/// What applying a row of shortcuts does: the trimmed shortcut of every slot (kept as
/// the row's current shortcuts), those to register, and the slots whose shortcut is
/// invalid.
#[derive(Debug, Clone)]
pub struct ShortcutPlan {
    pub applied: Vec<String>,
    pub register: Vec<SlotShortcut>,
    pub invalid: Vec<(u8, String)>,
}

pub open spec fn failure_views(v: Seq<(u8, String)>) -> Seq<(u8, Seq<char>)> {
    Seq::new(v.len(), |i: int| (v[i].0, v[i].1@))
}

fn numpad_of(entry: &str) -> (r: Option<ParsedShortcut>)
    ensures
        r == numpad_spec(entry@),
{
    match numpad_variant_str(entry) {
        Some(v) => parse_shortcut(v.as_str()),
        None => None,
    }
}

/// Plans the shortcuts of a row of ten slots (see `registered` and `invalid`).
pub fn plan_paste_shortcuts(kind: PasteKind, shortcuts: &[String]) -> (p: ShortcutPlan)
    ensures
        string_views(p.applied@) == Seq::new(
            SLOT_COUNT as nat,
            |i: int| slot_entry(string_views(shortcuts@), i),
        ),
        p.register@ == registered(string_views(shortcuts@), SLOT_COUNT as nat),
        failure_views(p.invalid@) == invalid(
            string_views(shortcuts@),
            kind.label_spec(),
            SLOT_COUNT as nat,
        ),
{
    let ghost sv = string_views(shortcuts@);
    let label = kind.label();
    let mut applied: Vec<String> = Vec::new();
    let mut register: Vec<SlotShortcut> = Vec::new();
    let mut invalid_slots: Vec<(u8, String)> = Vec::new();
    let mut i: usize = 0;
    while i < SLOT_COUNT
        invariant
            i <= SLOT_COUNT,
            sv == string_views(shortcuts@),
            label@ == kind.label_spec(),
            string_views(applied@) == Seq::new(i as nat, |j: int| slot_entry(sv, j)),
            register@ == registered(sv, i as nat),
            failure_views(invalid_slots@) == invalid(sv, kind.label_spec(), i as nat),
        decreases SLOT_COUNT - i,
    {
        let raw: String = if i < shortcuts.len() {
            shortcuts[i].clone()
        } else {
            String::new()
        };
        assert(raw@ == if 0 <= i < sv.len() {
            sv[i as int]
        } else {
            seq![]
        });
        let rc = chars_of(raw.as_str());
        let tc = crate::text::trim_chars(rc.as_slice());
        let entry = string_of(tc.as_slice());
        assert(entry@ == slot_entry(sv, i as int));
        let ghost before = applied@;
        applied.push(entry.clone());
        proof {
            crate::text::lemma_string_views_push(before, applied@.last());
        }
        assert(string_views(applied@) =~= Seq::new((i + 1) as nat, |j: int| slot_entry(sv, j)));
        let slot: u8 = (i + 1) as u8;
        if tc.len() > 0 {
            match parse_shortcut(entry.as_str()) {
                Some(sc) => {
                    register.push(SlotShortcut { slot, shortcut: sc, numpad: numpad_of(entry.as_str()) });
                    assert(register@ =~= registered(sv, (i + 1) as nat));
                    assert(failure_views(invalid_slots@) =~= invalid(sv, kind.label_spec(), (i + 1) as nat));
                },
                None => {
                    let mut m = chars_of(label.as_str());
                    let sp = chars_of(" ");
                    append_chars(&mut m, sp.as_slice());
                    let d = decimal_chars((i + 1) as u64);
                    append_chars(&mut m, d.as_slice());
                    let tail = chars_of(" 快捷键格式无效: ");
                    append_chars(&mut m, tail.as_slice());
                    append_chars(&mut m, tc.as_slice());
                    let msg = string_of(m.as_slice());
                    let ghost before_f = invalid_slots@;
                    invalid_slots.push((slot, msg));
                    assert(failure_views(invalid_slots@) =~= failure_views(before_f).push((slot, msg@)));
                    assert(register@ =~= registered(sv, (i + 1) as nat));
                    assert(failure_views(invalid_slots@) =~= invalid(sv, kind.label_spec(), (i + 1) as nat));
                },
            }
        } else {
            assert(register@ =~= registered(sv, (i + 1) as nat));
            assert(failure_views(invalid_slots@) =~= invalid(sv, kind.label_spec(), (i + 1) as nat));
        }
        i += 1;
    }
    ShortcutPlan { applied, register, invalid: invalid_slots }
}

/// The message for a slot whose shortcut could not be registered.
pub fn registration_failure(kind: PasteKind, slot: u8, entry: &str, err: &str) -> (m: String)
    ensures
        m@ == kind.label_spec() + " "@ + decimal(slot as nat) + " 注册失败（"@ + entry@ + "）: "@
            + err@,
{
    let label = kind.label();
    let mut m = chars_of(label.as_str());
    let sp = chars_of(" ");
    append_chars(&mut m, sp.as_slice());
    let d = decimal_chars(slot as u64);
    append_chars(&mut m, d.as_slice());
    let a = chars_of(" 注册失败（");
    append_chars(&mut m, a.as_slice());
    let e = chars_of(entry);
    append_chars(&mut m, e.as_slice());
    let b = chars_of("）: ");
    append_chars(&mut m, b.as_slice());
    let r = chars_of(err);
    append_chars(&mut m, r.as_slice());
    string_of(m.as_slice())
}

// ------------------------------------------------------------------ presses

/// What a press of a slot's shortcut does.
#[derive(Debug, Clone, Copy, PartialEq, Eq, Structural)]
pub enum PressAction {
    /// Nothing: a window of the program has the focus, or a paste is running.
    Ignore,
    /// Paste the slot's item.
    PasteSlot,
    /// The key is still held: paste again with Ctrl+V.
    RepeatPaste,
}

/// Whether a paste runs, and the slots of each row whose key is held.
#[derive(Debug, Clone)]
pub struct SlotKeys {
    pub in_progress: bool,
    quick: Vec<u8>,
    favorite: Vec<u8>,
}

/// The state, as plain values.
pub struct SlotKeysView {
    pub in_progress: bool,
    pub quick: Set<u8>,
    pub favorite: Set<u8>,
}

pub open spec fn held(s: SlotKeysView, kind: PasteKind) -> Set<u8> {
    match kind {
        PasteKind::Quick => s.quick,
        PasteKind::Favorite => s.favorite,
    }
}

pub open spec fn with_held(s: SlotKeysView, kind: PasteKind, h: Set<u8>) -> SlotKeysView {
    match kind {
        PasteKind::Quick => SlotKeysView { quick: h, ..s },
        PasteKind::Favorite => SlotKeysView { favorite: h, ..s },
    }
}

/// A press: ignored while a window has the focus or a paste runs; otherwise a paste
/// starts, of the slot's item if its key was not held, else a repeat.
pub open spec fn pressed(s: SlotKeysView, kind: PasteKind, slot: u8, focused: bool) -> (
    SlotKeysView,
    PressAction,
) {
    if focused || s.in_progress {
        (s, PressAction::Ignore)
    } else {
        let h = held(s, kind);
        (
            with_held(SlotKeysView { in_progress: true, ..s }, kind, h.insert(slot)),
            if h.contains(slot) {
                PressAction::RepeatPaste
            } else {
                PressAction::PasteSlot
            },
        )
    }
}

/// A paste is over: a first paste that failed forgets the slot's key; the next press
/// may start a paste.
pub open spec fn paste_done(
    s: SlotKeysView,
    kind: PasteKind,
    slot: u8,
    first: bool,
    failed: bool,
) -> SlotKeysView {
    let t = SlotKeysView { in_progress: false, ..s };
    if first && failed {
        with_held(t, kind, held(s, kind).remove(slot))
    } else {
        t
    }
}

/// The key of a slot came up.
pub open spec fn released(s: SlotKeysView, kind: PasteKind, slot: u8) -> SlotKeysView {
    with_held(s, kind, held(s, kind).remove(slot))
}

impl View for SlotKeys {
    type V = SlotKeysView;

    closed spec fn view(&self) -> SlotKeysView {
        SlotKeysView {
            in_progress: self.in_progress,
            quick: self.quick@.to_set(),
            favorite: self.favorite@.to_set(),
        }
    }
}

fn contains_u8(v: &Vec<u8>, x: u8) -> (b: bool)
    ensures
        b == v@.contains(x),
{
    let mut i: usize = 0;
    while i < v.len()
        invariant
            i <= v@.len(),
            forall|j: int| 0 <= j < i ==> v@[j] != x,
        decreases v.len() - i,
    {
        if v[i] == x {
            assert(v@[i as int] == x);
            return true;
        }
        i += 1;
    }
    false
}

fn without_u8(v: &Vec<u8>, x: u8) -> (out: Vec<u8>)
    ensures
        out@.to_set() == v@.to_set().remove(x),
{
    let mut out: Vec<u8> = Vec::new();
    let mut i: usize = 0;
    while i < v.len()
        invariant
            i <= v@.len(),
            out@.to_set() == v@.take(i as int).to_set().remove(x),
        decreases v.len() - i,
    {
        let ghost before = out@;
        if v[i] != x {
            out.push(v[i]);
        }
        proof {
            assert(v@.take(i + 1) =~= v@.take(i as int).push(v@[i as int]));
            v@.take(i as int).lemma_push_to_set_commute(v@[i as int]);
            if v@[i as int] != x {
                before.lemma_push_to_set_commute(v@[i as int]);
            } else {
                assert(out@ == before);
            }
            assert(out@.to_set() =~= v@.take(i + 1).to_set().remove(x));
        }
        i += 1;
    }
    assert(v@.take(i as int) =~= v@);
    out
}

impl SlotKeys {
    /// No paste running, no key held.
    pub fn new() -> (s: Self)
        ensures
            !s@.in_progress,
            s@.quick == Set::<u8>::empty(),
            s@.favorite == Set::<u8>::empty(),
    {
        let s = SlotKeys { in_progress: false, quick: Vec::new(), favorite: Vec::new() };
        assert(s@.quick =~= Set::<u8>::empty());
        assert(s@.favorite =~= Set::<u8>::empty());
        s
    }

    /// A press of a slot's shortcut (see `pressed`); `focused` says whether a window of
    /// the program has the focus.
    pub fn press(&mut self, kind: PasteKind, slot: u8, focused: bool) -> (a: PressAction)
        ensures
            (final(self)@, a) == pressed(old(self)@, kind, slot, focused),
    {
        if focused || self.in_progress {
            return PressAction::Ignore;
        }
        self.in_progress = true;
        let ghost before = match kind {
            PasteKind::Quick => self.quick@,
            PasteKind::Favorite => self.favorite@,
        };
        let was_held = match kind {
            PasteKind::Quick => contains_u8(&self.quick, slot),
            PasteKind::Favorite => contains_u8(&self.favorite, slot),
        };
        proof {
            before.lemma_push_to_set_commute(slot);
        }
        if !was_held {
            match kind {
                PasteKind::Quick => self.quick.push(slot),
                PasteKind::Favorite => self.favorite.push(slot),
            }
        }
        proof {
            if was_held {
                assert(before.to_set().insert(slot) =~= before.to_set());
            }
        }
        assert(self@.quick =~= held(pressed(old(self)@, kind, slot, focused).0, PasteKind::Quick));
        assert(self@.favorite =~= held(pressed(old(self)@, kind, slot, focused).0, PasteKind::Favorite));
        if was_held {
            PressAction::RepeatPaste
        } else {
            PressAction::PasteSlot
        }
    }

    /// A paste is over (see `paste_done`): `first` for a paste of the slot's item,
    /// `failed` when it failed.
    pub fn paste_finished(&mut self, kind: PasteKind, slot: u8, first: bool, failed: bool)
        ensures
            final(self)@ == paste_done(old(self)@, kind, slot, first, failed),
    {
        self.in_progress = false;
        if first && failed {
            match kind {
                PasteKind::Quick => self.quick = without_u8(&self.quick, slot),
                PasteKind::Favorite => self.favorite = without_u8(&self.favorite, slot),
            }
        }
        assert(self@.quick =~= paste_done(old(self)@, kind, slot, first, failed).quick);
        assert(self@.favorite =~= paste_done(old(self)@, kind, slot, first, failed).favorite);
    }

    /// The key of a slot came up.
    pub fn release(&mut self, kind: PasteKind, slot: u8)
        ensures
            final(self)@ == released(old(self)@, kind, slot),
    {
        match kind {
            PasteKind::Quick => self.quick = without_u8(&self.quick, slot),
            PasteKind::Favorite => self.favorite = without_u8(&self.favorite, slot),
        }
        assert(self@.quick =~= released(old(self)@, kind, slot).quick);
        assert(self@.favorite =~= released(old(self)@, kind, slot).favorite);
    }
}

/// Holding a slot's key: after the first paste, a second press (key repeat, before the
/// key comes up) pastes again with Ctrl+V rather than pasting the slot's item again.
pub proof fn lemma_held_key_repeats(s: SlotKeysView, kind: PasteKind, slot: u8)
    requires
        !s.in_progress,
        !held(s, kind).contains(slot),
    ensures
        pressed(s, kind, slot, false).1 == PressAction::PasteSlot,
        pressed(paste_done(pressed(s, kind, slot, false).0, kind, slot, true, false), kind, slot, false).1
            == PressAction::RepeatPaste,
{
}

/// Letting the key up forgets it: the next press pastes the slot's item again.
pub proof fn lemma_release_starts_over(s: SlotKeysView, kind: PasteKind, slot: u8, first: bool, failed: bool)
    requires
        !s.in_progress,
    ensures
        pressed(
            released(paste_done(pressed(s, kind, slot, false).0, kind, slot, first, failed), kind, slot),
            kind,
            slot,
            false,
        ).1 == PressAction::PasteSlot,
{
    let a = paste_done(pressed(s, kind, slot, false).0, kind, slot, first, failed);
    assert(!held(released(a, kind, slot), kind).contains(slot));
}

/// While a paste runs, every press is ignored and changes nothing.
pub proof fn lemma_one_paste_at_a_time(s: SlotKeysView, kind: PasteKind, slot: u8, focused: bool)
    requires
        s.in_progress,
    ensures
        pressed(s, kind, slot, focused) == (s, PressAction::Ignore),
{
}

} // verus!
