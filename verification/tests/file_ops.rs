use elegant_clipboard::database::ClipboardItem;
use elegant_clipboard::file_ops::{file_type_name, paths_text, DataSizeInfo, FileCheckResult};

fn files_item(paths: Option<&str>) -> ClipboardItem {
    ClipboardItem {
        id: 1,
        content_type: "files".into(),
        text_content: None,
        html_content: None,
        rtf_content: None,
        image_path: None,
        file_paths: paths.map(str::to_string),
        file_payload: None,
        content_hash: "h".into(),
        semantic_hash: "h".into(),
        preview: None,
        byte_size: 0,
        image_width: None,
        image_height: None,
        is_pinned: false,
        is_favorite: false,
        favorite_order: 0,
        sort_order: 1,
        created_at: String::new(),
        updated_at: String::new(),
        access_count: 0,
        last_accessed_at: None,
        char_count: None,
        source_app_name: None,
        source_app_icon: None,
        group_id: None,
        files_valid: None,
    }
}

#[test]
fn file_facts() {
    assert_eq!(FileCheckResult::from_answers(false, true), FileCheckResult { exists: false, is_dir: false });
    assert_eq!(FileCheckResult::from_answers(true, true), FileCheckResult { exists: true, is_dir: true });
    let sizes = DataSizeInfo::from_sizes(&[10, 0, 5], &[1, 2, 3, 4]);
    assert_eq!((sizes.db_size, sizes.images_size, sizes.images_count, sizes.total_size), (15, 10, 4, 25));
    assert_eq!(file_type_name(true, false, Some("txt")), "folder");
    assert_eq!(file_type_name(false, true, Some("txt")), "TXT");
    assert_eq!(file_type_name(false, true, None), "FILE");
    assert_eq!(file_type_name(false, false, None), "unknown");
}

#[test]
fn paths_pasted_as_text() {
    assert_eq!(paths_text(&files_item(Some(r#"["C:\\a","D:\\b"]"#))), Ok("C:\\a\nD:\\b".to_string()));
    assert_eq!(paths_text(&files_item(None)), Err("No file paths found".to_string()));
    let bad = paths_text(&files_item(Some("[1]")));
    assert!(bad.unwrap_err().starts_with("Failed to parse file paths: "));
    let mut text = files_item(None);
    text.content_type = "text".into();
    assert_eq!(paths_text(&text), Err("Item is not a file type".to_string()));
}
