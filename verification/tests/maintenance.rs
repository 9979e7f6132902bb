use elegant_clipboard::maintenance::{
    favorite_orders, legacy_settings_import, legacy_setting_names, legacy_setting_value, on_unless_false,
    position_mode_from_settings, rtf_from_buffer, semantic_hash_updates, BackfillRow,
};
use elegant_clipboard::positioning::PositionMode;

fn hex(bytes: &[u8]) -> String {
    blake3::hash(bytes).to_hex().to_string()
}

#[test]
fn favourites_are_renumbered_from_the_top() {
    assert_eq!(favorite_orders(&[9, 4, 7]), vec![(9, 3), (4, 2), (7, 1)]);
    assert!(favorite_orders(&[]).is_empty());
}

#[test]
fn stale_semantic_hashes_are_updated() {
    let rows = vec![
        BackfillRow {
            id: 1,
            content_type: "text".into(),
            text_content: Some("a\r\n".into()),
            content_hash: "c1".into(),
            semantic_hash: None,
        },
        BackfillRow {
            id: 2,
            content_type: "image".into(),
            text_content: None,
            content_hash: "c2".into(),
            semantic_hash: Some("c2".into()),
        },
        BackfillRow {
            id: 3,
            content_type: "files".into(),
            text_content: None,
            content_hash: "c3".into(),
            semantic_hash: Some("".into()),
        },
    ];
    assert_eq!(
        semantic_hash_updates(&rows),
        vec![(1, hex(b"text:a")), (3, "c3".to_string())]
    );
}

#[test]
fn settings_under_old_names_and_placement() {
    assert_eq!(legacy_setting_value(None, Some("Alt+V")), Some("Alt+V".to_string()));
    assert_eq!(legacy_setting_value(Some("x"), Some("Alt+V")), None);
    assert_eq!(legacy_setting_value(None, None), None);
    let names = legacy_setting_names();
    assert_eq!(names[0], ("hotkey".to_string(), "global_shortcut".to_string()));
    assert!(on_unless_false(None));
    assert!(on_unless_false(Some("0")));
    assert!(!on_unless_false(Some("false")));
    assert_eq!(position_mode_from_settings(Some("screen_center"), Some("false")), PositionMode::ScreenCenter);
    assert_eq!(position_mode_from_settings(None, Some("false")), PositionMode::FixedPosition);
    assert_eq!(position_mode_from_settings(None, None), PositionMode::FollowCursor);
}

#[test]
fn rtf_buffers_lose_their_terminator() {
    assert_eq!(rtf_from_buffer(&[]), None);
    assert_eq!(rtf_from_buffer(&[b'{', b'}', 0]), Some(vec![b'{', b'}']));
    assert_eq!(rtf_from_buffer(&[b'{', b'}']), Some(vec![b'{', b'}']));
    assert_eq!(rtf_from_buffer(&[0]), Some(vec![]));
}

fn setting(k: &str, v: &str) -> (String, String) {
    (k.to_string(), v.to_string())
}

#[test]
fn legacy_settings_are_carried_into_an_empty_store_once() {
    let legacy = vec![setting("theme", "dark"), setting("_schema", "3"), setting("max_history_count", "500")];
    let first = legacy_settings_import(&legacy, false, true);
    assert_eq!(first.rows, vec![setting("theme", "dark"), setting("max_history_count", "500")]);
    assert!(first.mark_migrated);
    let again = legacy_settings_import(&legacy, true, true);
    assert!(again.rows.is_empty());
    assert!(!again.mark_migrated);
}

#[test]
fn legacy_settings_are_not_carried_into_a_filled_store() {
    let r = legacy_settings_import(&[setting("theme", "dark")], false, false);
    assert!(r.rows.is_empty());
    assert!(r.mark_migrated);
}
