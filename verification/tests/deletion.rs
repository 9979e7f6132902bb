use elegant_clipboard::deletion::{
    approve_delete, map_delete_error, plan_batch_delete, ClipboardDeleteError, StoredItem,
};

fn stored(id: i64, locked: bool, image: Option<&str>, payload: Option<&str>) -> StoredItem {
    StoredItem {
        id,
        is_locked: locked,
        image_path: image.map(|s| s.to_string()),
        file_payload: payload.map(|s| s.to_string()),
    }
}

#[test]
fn delete_errors_have_stable_messages() {
    assert_eq!(map_delete_error(ClipboardDeleteError::Locked), "CLIPBOARD:ITEM_LOCKED");
    assert_eq!(map_delete_error(ClipboardDeleteError::NotFound), "CLIPBOARD:ITEM_NOT_FOUND");
    assert_eq!(
        map_delete_error(ClipboardDeleteError::Database("disk I/O error".to_string())),
        "disk I/O error"
    );
}

#[test]
fn missing_item_is_not_found() {
    assert!(matches!(approve_delete(None), Err(ClipboardDeleteError::NotFound)));
}

#[test]
fn locked_item_is_refused_until_unlocked() {
    let mut item = stored(7, true, Some("a.png"), None);
    let refused = approve_delete(Some(stored(7, true, Some("a.png"), None)));
    assert!(matches!(refused, Err(ClipboardDeleteError::Locked)));
    assert!(!item.toggle_lock());
    let approved = approve_delete(Some(item)).ok().unwrap();
    assert_eq!(approved.id, 7);
    assert_eq!(approved.image_path.as_deref(), Some("a.png"));
}

#[test]
fn toggle_lock_turns_the_lock_over() {
    let mut item = stored(1, false, None, None);
    assert!(item.toggle_lock());
    assert!(item.is_locked);
    assert!(!item.toggle_lock());
    assert!(!item.is_locked);
}

#[test]
fn batch_with_a_locked_item_plans_nothing() {
    let found = vec![stored(1, false, Some("n.png"), None), stored(2, true, None, None)];
    assert!(matches!(plan_batch_delete(&found), Err(ClipboardDeleteError::Locked)));
}

#[test]
fn batch_without_locks_removes_all_and_collects_assets() {
    let found = vec![
        stored(1, false, Some("one.png"), None),
        stored(2, false, None, Some("[\"a\"]")),
        stored(3, false, Some("three.png"), Some("[\"b\"]")),
    ];
    let plan = plan_batch_delete(&found).ok().unwrap();
    assert_eq!(plan.ids, vec![1, 2, 3]);
    assert_eq!(plan.deleted, 3);
    assert_eq!(plan.image_paths, vec!["one.png".to_string(), "three.png".to_string()]);
    assert_eq!(plan.file_payloads, vec!["[\"a\"]".to_string(), "[\"b\"]".to_string()]);
}

#[test]
fn empty_batch_deletes_nothing() {
    let plan = plan_batch_delete(&[]).ok().unwrap();
    assert_eq!(plan.deleted, 0);
    assert!(plan.ids.is_empty());
    assert!(plan.image_paths.is_empty());
}
