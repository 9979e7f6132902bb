use elegant_clipboard::database::QueryOptions;
use elegant_clipboard::query::{
    build_filter_conditions, count_clearable_query, count_query, excess_items, like_pattern,
    clear_history_queries, list_query, older_than_queries, trim_history_queries, Conditions,
    SqlParam,
};

#[test]
fn like_patterns_escape_wildcards() {
    assert_eq!(like_pattern("a_b%c\\d"), "%a\\_b\\%c\\\\d%");
    assert_eq!(like_pattern(""), "%%");
}

#[test]
fn default_filter_is_the_default_group() {
    let c = build_filter_conditions(&QueryOptions::default());
    assert_eq!(c.conditions, vec!["group_id IS NULL".to_string()]);
    assert!(c.params.is_empty());
    let (sql, params) = count_query(&QueryOptions::default());
    assert_eq!(sql, "SELECT COUNT(*) FROM clipboard_items WHERE group_id IS NULL");
    assert!(params.is_empty());
}

#[test]
fn full_filter() {
    let options = QueryOptions {
        search: Some("50%".into()),
        content_type: Some(" text, ,html ".into()),
        pinned_only: true,
        favorite_only: true,
        group_id: Some(7),
        limit: Some(20),
        offset: None,
    };
    let c = build_filter_conditions(&options);
    assert_eq!(
        c.conditions,
        vec![
            "(text_content LIKE ? ESCAPE '\\' OR file_paths LIKE ? ESCAPE '\\')".to_string(),
            "content_type IN (?,?)".to_string(),
            "is_pinned = 1".to_string(),
            "is_favorite = 1".to_string(),
            "group_id = ?".to_string(),
        ]
    );
    assert_eq!(
        c.params,
        vec![
            SqlParam::Text("%50\\%%".into()),
            SqlParam::Text("%50\\%%".into()),
            SqlParam::Text("text".into()),
            SqlParam::Text("html".into()),
            SqlParam::Int(7),
        ]
    );
    let (sql, params) = list_query(&options);
    assert!(sql.starts_with("SELECT id, content_type, text_content, NULL AS html_content"));
    assert!(sql.ends_with(
        " WHERE (text_content LIKE ? ESCAPE '\\' OR file_paths LIKE ? ESCAPE '\\') AND content_type IN (?,?) AND is_pinned = 1 AND is_favorite = 1 AND group_id = ? ORDER BY is_pinned DESC, favorite_order DESC, sort_order DESC, created_at DESC LIMIT ? OFFSET ?"
    ));
    assert_eq!(params.len(), 7);
    assert_eq!(params[5], SqlParam::Int(20));
    assert_eq!(params[6], SqlParam::Int(0));
}

#[test]
fn single_type_and_plain_listing() {
    let options = QueryOptions { content_type: Some("image".into()), ..Default::default() };
    let (sql, params) = list_query(&options);
    assert_eq!(
        sql,
        "SELECT id, content_type, NULL AS text_content, NULL AS html_content, NULL AS rtf_content, image_path, file_paths, NULL AS file_payload, content_hash, semantic_hash, preview, byte_size, image_width, image_height, is_pinned, is_favorite, favorite_order, sort_order, created_at, updated_at, access_count, last_accessed_at, char_count, source_app_name, source_app_icon, group_id FROM clipboard_items WHERE content_type = ? AND group_id IS NULL ORDER BY is_pinned DESC, sort_order DESC, created_at DESC"
    );
    assert_eq!(params, vec![SqlParam::Text("image".into())]);
}

#[test]
fn clearable_conditions_and_excess() {
    let mut c = Conditions::new();
    c.clearable();
    c.group(None);
    assert_eq!(c.where_clause(), " WHERE is_pinned = 0 AND is_favorite = 0 AND group_id IS NULL");
    assert_eq!(Conditions::new().where_clause(), "");
    assert_eq!(excess_items(10, 3), 7);
    assert_eq!(excess_items(2, 3), 0);
    assert_eq!(excess_items(10, 0), 0);
}

#[test]
fn trimming_statements_select_the_oldest_clearable_items() {
    let q = trim_history_queries(Some(4), 3);
    assert_eq!(
        q.image_paths.0,
        "SELECT image_path FROM clipboard_items WHERE is_pinned = 0 AND is_favorite = 0 AND group_id = ? AND image_path IS NOT NULL ORDER BY created_at ASC LIMIT ?"
    );
    assert_eq!(q.image_paths.1, vec![SqlParam::Int(4), SqlParam::Int(3)]);
    assert_eq!(
        q.file_payloads.0,
        "SELECT file_payload FROM clipboard_items WHERE is_pinned = 0 AND is_favorite = 0 AND group_id = ? AND file_payload IS NOT NULL ORDER BY created_at ASC LIMIT ?"
    );
    assert_eq!(
        q.delete.0,
        "DELETE FROM clipboard_items WHERE id IN (SELECT id FROM clipboard_items WHERE is_pinned = 0 AND is_favorite = 0 AND group_id = ? ORDER BY created_at ASC LIMIT ?)"
    );
    assert_eq!(q.delete.1, vec![SqlParam::Int(4), SqlParam::Int(3)]);
    let (count_sql, count_params) = count_clearable_query(None);
    assert_eq!(
        count_sql,
        "SELECT COUNT(*) FROM clipboard_items WHERE is_pinned = 0 AND is_favorite = 0 AND group_id IS NULL"
    );
    assert!(count_params.is_empty());
}

#[test]
fn age_statements_select_items_older_than_the_days() {
    let q = older_than_queries(None, 30);
    assert_eq!(
        q.delete.0,
        "DELETE FROM clipboard_items WHERE is_pinned = 0 AND is_favorite = 0 AND group_id IS NULL AND created_at < datetime('now', 'localtime', '-' || ? || ' days')"
    );
    assert_eq!(q.delete.1, vec![SqlParam::Int(30)]);
    assert_eq!(
        q.image_paths.0,
        "SELECT image_path FROM clipboard_items WHERE is_pinned = 0 AND is_favorite = 0 AND group_id IS NULL AND image_path IS NOT NULL AND created_at < datetime('now', 'localtime', '-' || ? || ' days')"
    );
    assert_eq!(q.file_payloads.1, vec![SqlParam::Int(30)]);
}

#[test]
fn clearing_keeps_pinned_favourite_and_locked_items() {
    let q = clear_history_queries(Some(2), Some("text, image"));
    assert_eq!(
        q.delete.0,
        "DELETE FROM clipboard_items WHERE is_pinned = 0 AND is_favorite = 0 AND group_id = ? AND content_type IN (?,?) AND is_locked = 0"
    );
    assert_eq!(
        q.delete.1,
        vec![SqlParam::Int(2), SqlParam::Text("text".into()), SqlParam::Text("image".into())]
    );
    assert_eq!(
        q.image_paths.0,
        "SELECT image_path FROM clipboard_items WHERE is_pinned = 0 AND is_favorite = 0 AND group_id = ? AND content_type IN (?,?) AND is_locked = 0 AND image_path IS NOT NULL"
    );
    let all = clear_history_queries(None, None);
    assert_eq!(
        all.file_payloads.0,
        "SELECT file_payload FROM clipboard_items WHERE is_pinned = 0 AND is_favorite = 0 AND group_id IS NULL AND is_locked = 0 AND file_payload IS NOT NULL"
    );
    assert!(all.delete.1.is_empty());
}
