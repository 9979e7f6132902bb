use elegant_clipboard::paste_keys::{plan_paste_shortcuts, registration_failure, PressAction, SlotKeys};
use elegant_clipboard::shortcuts::{parse_shortcut, PasteKind};

#[test]
fn a_row_registers_valid_shortcuts_and_reports_invalid_ones() {
    let row: Vec<String> = vec![" Alt+1 ".into(), "".into(), "Alt+Nope".into(), "Ctrl+Shift+V".into()];
    let plan = plan_paste_shortcuts(PasteKind::Quick, &row);
    assert_eq!(plan.applied.len(), 10);
    assert_eq!(plan.applied[0], "Alt+1");
    assert_eq!(plan.applied[1], "");
    assert_eq!(plan.applied[9], "");
    assert_eq!(plan.register.len(), 2);
    assert_eq!(plan.register[0].slot, 1);
    assert_eq!(Some(plan.register[0].shortcut), parse_shortcut("Alt+1"));
    assert_eq!(plan.register[0].numpad, parse_shortcut("Alt+Numpad1"));
    assert_eq!(plan.register[1].slot, 4);
    assert_eq!(plan.register[1].numpad, None);
    assert_eq!(plan.invalid, vec![(3, "槽位 3 快捷键格式无效: Alt+Nope".to_string())]);
    let fav = plan_paste_shortcuts(PasteKind::Favorite, &["Bad+".to_string()]);
    assert_eq!(fav.invalid, vec![(1, "收藏槽位 1 快捷键格式无效: Bad+".to_string())]);
    assert_eq!(
        registration_failure(PasteKind::Quick, 10, "Alt+0", "taken"),
        "槽位 10 注册失败（Alt+0）: taken"
    );
}

#[test]
fn holding_a_slot_key_repeats_and_release_starts_over() {
    let mut k = SlotKeys::new();
    assert_eq!(k.press(PasteKind::Quick, 2, false), PressAction::PasteSlot);
    assert_eq!(k.press(PasteKind::Quick, 2, false), PressAction::Ignore);
    k.paste_finished(PasteKind::Quick, 2, true, false);
    assert_eq!(k.press(PasteKind::Quick, 2, false), PressAction::RepeatPaste);
    k.paste_finished(PasteKind::Quick, 2, false, false);
    k.release(PasteKind::Quick, 2);
    assert_eq!(k.press(PasteKind::Quick, 2, true), PressAction::Ignore);
    assert_eq!(k.press(PasteKind::Quick, 2, false), PressAction::PasteSlot);
    k.paste_finished(PasteKind::Quick, 2, true, true);
    assert_eq!(k.press(PasteKind::Favorite, 2, false), PressAction::PasteSlot);
    k.paste_finished(PasteKind::Favorite, 2, true, false);
    assert_eq!(k.press(PasteKind::Quick, 2, false), PressAction::PasteSlot);
}
