//! The key strokes that paste or copy in the window that has the focus.
//!
//! A chord is a modifier held around one key (Ctrl+V, Ctrl+C, Shift+Insert). Before
//! it is sent, the other modifiers the user may still hold are released, so that the
//! target sees the plain chord; a modifier of the chord that the user already holds
//! is used as it is, and stays held afterwards.
use vstd::prelude::*;
use crate::text::{chars_eq, chars_of};

verus! {

/// The setting that chooses the paste keys.
pub const PASTE_KEY_SETTING: &'static str = "paste_key";

/// The setting's value for Ctrl+V.
pub const PASTE_KEY_CTRL_V: &'static str = "ctrl_v";

/// The setting's value for Shift+Insert.
pub const PASTE_KEY_SHIFT_INSERT: &'static str = "shift_insert";

/// Windows virtual-key codes.
pub const VK_SHIFT: u16 = 0x10;
pub const VK_CONTROL: u16 = 0x11;
pub const VK_MENU: u16 = 0x12;
pub const VK_INSERT: u16 = 0x2D;
pub const VK_C: u16 = 0x43;
pub const VK_V: u16 = 0x56;
pub const VK_LWIN: u16 = 0x5B;
pub const VK_RWIN: u16 = 0x5C;

/// A chord to send.
#[derive(Debug, Clone, Copy, PartialEq, Eq, Structural)]
pub enum KeyChord {
    /// Ctrl+V: paste.
    CtrlV,
    /// Ctrl+C: copy the selection.
    CtrlC,
    /// Shift+Insert: paste, for programs that do not take Ctrl+V.
    ShiftInsert,
}

/// One key going down or up.
#[derive(Debug, Clone, Copy, PartialEq, Eq, Structural)]
pub struct KeyStroke {
    pub vk: u16,
    pub up: bool,
}

pub open spec fn chord_modifier(chord: KeyChord) -> u16 {
    match chord {
        KeyChord::ShiftInsert => VK_SHIFT,
        _ => VK_CONTROL,
    }
}

pub open spec fn chord_key(chord: KeyChord) -> u16 {
    match chord {
        KeyChord::CtrlV => VK_V,
        KeyChord::CtrlC => VK_C,
        KeyChord::ShiftInsert => VK_INSERT,
    }
}

/// The modifiers released before the chord, in order: Alt, the other of Shift and
/// Ctrl, and both Windows keys.
pub open spec fn released_first_spec(chord: KeyChord) -> Seq<u16> {
    match chord {
        KeyChord::ShiftInsert => seq![VK_MENU, VK_CONTROL, VK_LWIN, VK_RWIN],
        _ => seq![VK_MENU, VK_SHIFT, VK_LWIN, VK_RWIN],
    }
}

/// The strokes of the chord: the modifier down (unless the user holds it), the key
/// down and up, the modifier up again (unless the user held it).
pub open spec fn chord_strokes_spec(chord: KeyChord, modifier_held: bool) -> Seq<KeyStroke> {
    let m = chord_modifier(chord);
    let k = chord_key(chord);
    if modifier_held {
        seq![KeyStroke { vk: k, up: false }, KeyStroke { vk: k, up: true }]
    } else {
        seq![
            KeyStroke { vk: m, up: false },
            KeyStroke { vk: k, up: false },
            KeyStroke { vk: k, up: true },
            KeyStroke { vk: m, up: true },
        ]
    }
}

impl KeyChord {
    /// The modifier held around the key.
    pub fn modifier(self) -> (vk: u16)
        ensures
            vk == chord_modifier(self),
    {
        match self {
            KeyChord::ShiftInsert => VK_SHIFT,
            _ => VK_CONTROL,
        }
    }

    /// The key pressed inside the chord.
    pub fn key(self) -> (vk: u16)
        ensures
            vk == chord_key(self),
    {
        match self {
            KeyChord::CtrlV => VK_V,
            KeyChord::CtrlC => VK_C,
            KeyChord::ShiftInsert => VK_INSERT,
        }
    }

    /// The modifiers to release, if held, before the chord.
    pub fn released_first(self) -> (keys: Vec<u16>)
        ensures
            keys@ == released_first_spec(self),
    {
        let keys = match self {
            KeyChord::ShiftInsert => vec![VK_MENU, VK_CONTROL, VK_LWIN, VK_RWIN],
            _ => vec![VK_MENU, VK_SHIFT, VK_LWIN, VK_RWIN],
        };
        assert(keys@ =~= released_first_spec(self));
        keys
    }

    /// The strokes of the chord, given whether the user already holds its modifier.
    pub fn strokes(self, modifier_held: bool) -> (s: Vec<KeyStroke>)
        ensures
            s@ == chord_strokes_spec(self, modifier_held),
    {
        let m = self.modifier();
        let k = self.key();
        let s = if modifier_held {
            vec![KeyStroke { vk: k, up: false }, KeyStroke { vk: k, up: true }]
        } else {
            vec![
                KeyStroke { vk: m, up: false },
                KeyStroke { vk: k, up: false },
                KeyStroke { vk: k, up: true },
                KeyStroke { vk: m, up: true },
            ]
        };
        assert(s@ =~= chord_strokes_spec(self, modifier_held));
        s
    }
}

/// The chord that pastes under the paste-key setting: Shift+Insert when it says
/// `shift_insert`, Ctrl+V for anything else.
pub fn paste_chord(paste_key: &str) -> (c: KeyChord)
    ensures
        c == if paste_key@ == PASTE_KEY_SHIFT_INSERT@ {
            KeyChord::ShiftInsert
        } else {
            KeyChord::CtrlV
        },
{
    let k = chars_of(paste_key);
    let s = chars_of(PASTE_KEY_SHIFT_INSERT);
    if chars_eq(k.as_slice(), s.as_slice()) {
        KeyChord::ShiftInsert
    } else {
        KeyChord::CtrlV
    }
}

/// Every key a chord presses is released later in it, and every key it releases it
/// pressed before; a modifier the user holds is neither pressed nor released.
pub proof fn lemma_chord_leaves_keys_as_found(chord: KeyChord, modifier_held: bool)
    ensures
        forall|i: int|
            0 <= i < chord_strokes_spec(chord, modifier_held).len() && !(
            #[trigger] chord_strokes_spec(chord, modifier_held)[i]).up ==> exists|j: int|
                i < j < chord_strokes_spec(chord, modifier_held).len()
                    && chord_strokes_spec(chord, modifier_held)[j] == (KeyStroke {
                    vk: chord_strokes_spec(chord, modifier_held)[i].vk,
                    up: true,
                }),
        forall|j: int|
            0 <= j < chord_strokes_spec(chord, modifier_held).len() && (
            #[trigger] chord_strokes_spec(chord, modifier_held)[j]).up ==> exists|i: int|
                0 <= i < j && chord_strokes_spec(chord, modifier_held)[i] == (KeyStroke {
                    vk: chord_strokes_spec(chord, modifier_held)[j].vk,
                    up: false,
                }),
        modifier_held ==> forall|i: int|
            0 <= i < chord_strokes_spec(chord, modifier_held).len() ==> (
            #[trigger] chord_strokes_spec(chord, modifier_held)[i]).vk != chord_modifier(chord),
{
    let s = chord_strokes_spec(chord, modifier_held);
    if modifier_held {
        assert(s[1] == KeyStroke { vk: s[0].vk, up: true });
        assert(s[0] == KeyStroke { vk: s[1].vk, up: false });
    } else {
        assert(s[3] == KeyStroke { vk: s[0].vk, up: true });
        assert(s[2] == KeyStroke { vk: s[1].vk, up: true });
        assert(s[1] == KeyStroke { vk: s[2].vk, up: false });
        assert(s[0] == KeyStroke { vk: s[3].vk, up: false });
    }
}

/// The strokes that copy the selection for translation: Ctrl, Alt, Shift and the left
/// Windows key released whatever their state, then Ctrl+C.
pub open spec fn selection_copy_spec() -> Seq<KeyStroke> {
    seq![
        KeyStroke { vk: VK_CONTROL, up: true },
        KeyStroke { vk: VK_MENU, up: true },
        KeyStroke { vk: VK_SHIFT, up: true },
        KeyStroke { vk: VK_LWIN, up: true },
    ] + chord_strokes_spec(KeyChord::CtrlC, false)
}

/// The strokes that copy the selection for translation (see `selection_copy_spec`).
pub fn selection_copy_strokes() -> (s: Vec<KeyStroke>)
    ensures
        s@ == selection_copy_spec(),
{
    let mut s = vec![
        KeyStroke { vk: VK_CONTROL, up: true },
        KeyStroke { vk: VK_MENU, up: true },
        KeyStroke { vk: VK_SHIFT, up: true },
        KeyStroke { vk: VK_LWIN, up: true },
    ];
    let mut chord = KeyChord::CtrlC.strokes(false);
    s.append(&mut chord);
    assert(s@ =~= selection_copy_spec());
    s
}

// ------------------------------------------------------------------ waiting for the copy

/// How many times the clipboard is looked at, 20 ms apart, after the copy strokes.
pub const SELECTION_POLLS: u32 = 25;

/// What to do after looking at the clipboard once more while waiting for the copy.
#[derive(Clone, Copy, Debug, PartialEq, Eq, Structural)]
pub enum PollAction {
    /// Wait 20 ms and look again.
    Wait,
    /// The clipboard changed: read the copied text.
    ReadText,
    /// It never changed: nothing was selected, the text is empty.
    GiveUpEmpty,
}

/// The action after look number `polls + 1`, given the clipboard's sequence number
/// before the copy and now.
pub open spec fn selection_poll_spec(polls: u32, seq_before: u32, seq_now: u32) -> PollAction {
    if seq_now != seq_before {
        PollAction::ReadText
    } else if polls + 1 >= SELECTION_POLLS {
        PollAction::GiveUpEmpty
    } else {
        PollAction::Wait
    }
}

/// The action after look number `polls + 1` (`polls` looks were made before), given
/// the clipboard's sequence number before the copy and now.
pub fn selection_poll(polls: u32, seq_before: u32, seq_now: u32) -> (a: PollAction)
    ensures
        a == selection_poll_spec(polls, seq_before, seq_now),
{
    if seq_now != seq_before {
        PollAction::ReadText
    } else if polls >= SELECTION_POLLS - 1 {
        PollAction::GiveUpEmpty
    } else {
        PollAction::Wait
    }
}

/// The wait for the copy ends: counting looks from zero, it never asks to wait after
/// the last of the `SELECTION_POLLS` looks, and a change of the clipboard is read at
/// once.
pub proof fn lemma_selection_wait_is_bounded(polls: u32, seq_before: u32, seq_now: u32)
    ensures
        polls + 1 >= SELECTION_POLLS ==> selection_poll_spec(polls, seq_before, seq_now)
            != PollAction::Wait,
        seq_now != seq_before ==> selection_poll_spec(polls, seq_before, seq_now)
            == PollAction::ReadText,
        seq_now == seq_before ==> selection_poll_spec(polls, seq_before, seq_now)
            != PollAction::ReadText,
{
}

} // verus!
