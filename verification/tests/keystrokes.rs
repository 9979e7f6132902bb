use elegant_clipboard::keystrokes::{
    paste_chord, selection_copy_strokes, selection_poll, PollAction, VK_C, KeyChord, KeyStroke, PASTE_KEY_SETTING, VK_CONTROL, VK_INSERT, VK_LWIN, VK_MENU,
    VK_RWIN, VK_SHIFT, VK_V,
};

#[test]
fn paste_setting_chooses_the_chord() {
    assert_eq!(PASTE_KEY_SETTING, "paste_key");
    assert_eq!(paste_chord("shift_insert"), KeyChord::ShiftInsert);
    assert_eq!(paste_chord("ctrl_v"), KeyChord::CtrlV);
    assert_eq!(paste_chord("something else"), KeyChord::CtrlV);
    assert_eq!(paste_chord(""), KeyChord::CtrlV);
}

#[test]
fn ctrl_v_releases_other_modifiers_and_wraps_the_key() {
    let c = KeyChord::CtrlV;
    assert_eq!(c.released_first(), vec![VK_MENU, VK_SHIFT, VK_LWIN, VK_RWIN]);
    assert_eq!(
        c.strokes(false),
        vec![
            KeyStroke { vk: VK_CONTROL, up: false },
            KeyStroke { vk: VK_V, up: false },
            KeyStroke { vk: VK_V, up: true },
            KeyStroke { vk: VK_CONTROL, up: true },
        ]
    );
    assert_eq!(
        c.strokes(true),
        vec![KeyStroke { vk: VK_V, up: false }, KeyStroke { vk: VK_V, up: true }]
    );
}

#[test]
fn shift_insert_and_copy_chords() {
    let s = KeyChord::ShiftInsert;
    assert_eq!(s.modifier(), VK_SHIFT);
    assert_eq!(s.key(), VK_INSERT);
    assert_eq!(s.released_first(), vec![VK_MENU, VK_CONTROL, VK_LWIN, VK_RWIN]);
    assert_eq!(KeyChord::CtrlC.key(), 0x43);
    assert_eq!(KeyChord::CtrlC.modifier(), VK_CONTROL);
    let strokes = s.strokes(false);
    assert_eq!(strokes.first(), Some(&KeyStroke { vk: VK_SHIFT, up: false }));
    assert_eq!(strokes.last(), Some(&KeyStroke { vk: VK_SHIFT, up: true }));
}

#[test]
fn selection_copy_releases_modifiers_then_copies() {
    let s = selection_copy_strokes();
    assert_eq!(s.len(), 8);
    assert!(s[..4].iter().all(|k| k.up));
    assert_eq!(s[4], KeyStroke { vk: VK_CONTROL, up: false });
    assert_eq!(s[5], KeyStroke { vk: VK_C, up: false });
    assert_eq!(s[7], KeyStroke { vk: VK_CONTROL, up: true });
}

#[test]
fn selection_poll_waits_reads_or_gives_up() {
    assert_eq!(selection_poll(0, 7, 7), PollAction::Wait);
    assert_eq!(selection_poll(3, 7, 8), PollAction::ReadText);
    assert_eq!(selection_poll(23, 7, 7), PollAction::Wait);
    assert_eq!(selection_poll(24, 7, 7), PollAction::GiveUpEmpty);
    assert_eq!(selection_poll(24, 7, 9), PollAction::ReadText);
    assert_eq!(selection_poll(u32::MAX, 7, 7), PollAction::GiveUpEmpty);
}
