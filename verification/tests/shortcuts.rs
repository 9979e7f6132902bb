use elegant_clipboard::shortcuts::{
    parse_shortcut, startup_toggle_shortcut, KeyCode, ModifierSet,
    default_favorite_paste_shortcuts, default_quick_paste_shortcuts, favorite_paste_setting_key,
    normalize_shortcut_value, numpad_variant_str, quick_paste_setting_key, shortcut_has_modifier,
    PasteKind,
};

#[test]
fn pure_letter_has_no_modifier() {
    assert!(!shortcut_has_modifier("A"));
    assert!(!shortcut_has_modifier("V"));
}

#[test]
fn ctrl_modifier() {
    assert!(shortcut_has_modifier("CTRL+V"));
    assert!(shortcut_has_modifier("CONTROL+V"));
}

#[test]
fn alt_modifier() {
    assert!(shortcut_has_modifier("ALT+N"));
}

#[test]
fn lib_win_modifier() {
    assert!(shortcut_has_modifier("WIN+V"));
    assert!(shortcut_has_modifier("SUPER+V"));
    assert!(shortcut_has_modifier("META+V"));
    assert!(shortcut_has_modifier("CMD+V"));
}

#[test]
fn empty_string() {
    assert!(!shortcut_has_modifier(""));
}

#[test]
fn lib_with_spaces() {
    assert!(shortcut_has_modifier("CTRL + SHIFT + V"));
}

#[test]
fn lowercase_modifier_counts_and_shift_alone_does_not() {
    assert!(shortcut_has_modifier("ctrl+v"));
    assert!(!shortcut_has_modifier("Shift+V"));
}

#[test]
fn numpad_variant_of_digit_shortcuts() {
    assert_eq!(numpad_variant_str("Alt+1"), Some("Alt+Numpad1".to_string()));
    assert_eq!(
        numpad_variant_str("Ctrl + Alt + 3 "),
        Some("Ctrl+Alt+Numpad3".to_string())
    );
    assert_eq!(numpad_variant_str("7"), Some("Numpad7".to_string()));
    assert_eq!(numpad_variant_str("Alt+V"), None);
    assert_eq!(numpad_variant_str("Alt+12"), None);
    assert_eq!(numpad_variant_str(""), None);
}

#[test]
fn normalize_trims() {
    assert_eq!(normalize_shortcut_value("  Alt+1 \t"), "Alt+1");
}

#[test]
fn default_slots() {
    let quick = default_quick_paste_shortcuts();
    assert_eq!(quick.len(), 10);
    assert_eq!(quick[0], "Alt+1");
    assert_eq!(quick[8], "Alt+9");
    assert_eq!(quick[9], "Alt+0");
    let fav = default_favorite_paste_shortcuts();
    assert_eq!(fav.len(), 10);
    assert_eq!(fav[0], "Ctrl+Alt+1");
    assert_eq!(fav[2], "Ctrl+Alt+3");
    assert!(fav[3..].iter().all(|s| s.is_empty()));
}

#[test]
fn setting_keys() {
    assert_eq!(quick_paste_setting_key(1), "quick_paste_shortcut_1");
    assert_eq!(quick_paste_setting_key(10), "quick_paste_shortcut_10");
    assert_eq!(favorite_paste_setting_key(255), "favorite_paste_shortcut_255");
    assert_eq!(PasteKind::Favorite.setting_key(3), "favorite_paste_shortcut_3");
    assert_eq!(PasteKind::Quick.label(), "槽位");
    assert_eq!(PasteKind::Favorite.label(), "收藏槽位");
}

#[test]
fn stored_values_replace_defaults() {
    let mut stored: Vec<Option<String>> = vec![None; 10];
    stored[0] = Some(" Ctrl+1 ".to_string());
    stored[9] = Some(String::new());
    let v = PasteKind::Quick.load_shortcuts(&stored);
    assert_eq!(v[0], "Ctrl+1");
    assert_eq!(v[1], "Alt+2");
    assert_eq!(v[9], "");
    let current = PasteKind::Favorite.current_or_defaults(vec!["x".to_string()]);
    assert_eq!(current, default_favorite_paste_shortcuts());
}

fn mods(s: &str) -> ModifierSet {
    parse_shortcut(s).unwrap().mods.unwrap()
}

#[test]
fn single_letter() {
    let s = parse_shortcut("V").unwrap();
    assert_eq!(s.key, KeyCode::Letter(21));
    assert!(s.mods.is_none());
}

#[test]
fn ctrl_shift_v() {
    let s = parse_shortcut("CTRL+SHIFT+V").unwrap();
    assert_eq!(s.key, KeyCode::Letter(21));
    assert!(mods("CTRL+SHIFT+V").control);
    assert!(mods("CTRL+SHIFT+V").shift);
}

#[test]
fn alt_key() {
    let s = parse_shortcut("ALT+N").unwrap();
    assert_eq!(s.key, KeyCode::Letter(13));
    assert!(mods("ALT+N").alt);
}

#[test]
fn shortcut_win_modifier() {
    assert!(mods("WIN+V").super_key);
}

#[test]
fn function_key() {
    let s = parse_shortcut("CTRL+F12").unwrap();
    assert_eq!(s.key, KeyCode::Function(12));
}

#[test]
fn special_keys() {
    assert!(parse_shortcut("SPACE").is_some());
    assert!(parse_shortcut("ENTER").is_some());
    assert!(parse_shortcut("RETURN").is_some());
    assert!(parse_shortcut("ESCAPE").is_some());
    assert!(parse_shortcut("ESC").is_some());
    assert!(parse_shortcut("DELETE").is_some());
    assert!(parse_shortcut("DEL").is_some());
    assert!(parse_shortcut("TAB").is_some());
}

#[test]
fn arrow_keys() {
    assert!(parse_shortcut("UP").is_some());
    assert!(parse_shortcut("ARROWUP").is_some());
    assert!(parse_shortcut("DOWN").is_some());
    assert!(parse_shortcut("LEFT").is_some());
    assert!(parse_shortcut("RIGHT").is_some());
}

#[test]
fn numpad() {
    let s = parse_shortcut("NUMPAD5").unwrap();
    assert_eq!(s.key, KeyCode::Numpad(5));
}

#[test]
fn digits() {
    let s = parse_shortcut("CTRL+1").unwrap();
    assert_eq!(s.key, KeyCode::Digit(1));
}

#[test]
fn invalid_key_returns_none() {
    assert!(parse_shortcut("INVALID_KEY").is_none());
}

#[test]
fn empty_string_returns_none() {
    assert!(parse_shortcut("").is_none());
}

#[test]
fn shortcut_case_insensitive() {
    assert!(mods("ctrl+shift+v").control);
}

#[test]
fn shortcut_with_spaces() {
    assert!(mods("CTRL + SHIFT + V").control);
    assert!(mods("CTRL + SHIFT + V").shift);
}

#[test]
fn key_names_follow_number_parsing() {
    assert_eq!(parse_shortcut("F1").unwrap().key, KeyCode::Function(1));
    assert_eq!(parse_shortcut("f01").unwrap().key, KeyCode::Function(1));
    assert!(parse_shortcut("F13").is_none());
    assert!(parse_shortcut("F0").is_none());
    assert_eq!(parse_shortcut("F").unwrap().key, KeyCode::Letter(5));
    assert_eq!(parse_shortcut("numpad009").unwrap().key, KeyCode::Numpad(9));
    assert!(parse_shortcut("NUMPAD10").is_none());
    assert_eq!(parse_shortcut("`").unwrap().key, KeyCode::Backquote);
    // the key comes from the last part that is not a modifier
    assert_eq!(parse_shortcut("A+B+CTRL").unwrap().key, KeyCode::Letter(1));
    assert!(parse_shortcut("A+NOPE").is_none());
    assert!(parse_shortcut("CTRL+ALT").is_none());
}

#[test]
fn startup_shortcut_choice() {
    let (win_v, shown) = startup_toggle_shortcut(true, Some("Ctrl+Shift+X"));
    assert_eq!(shown, "Win+V");
    assert_eq!(win_v.key, KeyCode::Letter(21));
    assert_eq!(
        win_v.mods,
        Some(ModifierSet { control: false, alt: false, shift: false, super_key: true })
    );
    let (default, shown) = startup_toggle_shortcut(false, None);
    assert_eq!(shown, "Alt+C");
    assert_eq!(Some(default), parse_shortcut("Alt+C"));
    let (saved, shown) = startup_toggle_shortcut(false, Some("Ctrl+Shift+X"));
    assert_eq!(shown, "Ctrl+Shift+X");
    assert_eq!(Some(saved), parse_shortcut("Ctrl+Shift+X"));
    let (fallback, shown) = startup_toggle_shortcut(false, Some("not a shortcut"));
    assert_eq!(shown, "not a shortcut");
    assert_eq!(Some(fallback), parse_shortcut("Alt+C"));
}
