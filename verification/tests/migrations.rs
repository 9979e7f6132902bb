use elegant_clipboard::migrations::{
    migration_plan, recovers_orphan_table, url_type_migration, LateColumn, MigrationStep,
    SchemaFacts, UrlTypeMigration,
};

fn cols(names: &[&str]) -> Vec<String> {
    names.iter().map(|s| s.to_string()).collect()
}

const CURRENT: [&str; 25] = [
    "id", "content_type", "text_content", "html_content", "rtf_content", "image_path",
    "file_paths", "content_hash", "semantic_hash", "preview", "byte_size", "image_width",
    "image_height", "is_pinned", "is_favorite", "favorite_order", "sort_order", "created_at",
    "updated_at", "access_count", "last_accessed_at", "char_count", "source_app_name",
    "source_app_icon", "group_id",
];

fn every_open() -> Vec<MigrationStep> {
    vec![
        MigrationStep::RelaxHashIndexes,
        MigrationStep::BackfillSemanticHashes,
        MigrationStep::IndexSemanticHashes,
        MigrationStep::NormalizeFavoriteOrder,
        MigrationStep::MigrateUrlContentType,
    ]
}

#[test]
fn no_table_no_steps() {
    let f = SchemaFacts { table_exists: false, columns: vec![], has_full_text: true, has_item_groups: false };
    assert!(migration_plan(&f).is_empty());
}

#[test]
fn fresh_schema_gets_only_the_late_columns() {
    let f = SchemaFacts {
        table_exists: true,
        columns: cols(&CURRENT),
        has_full_text: false,
        has_item_groups: false,
    };
    let mut expected = every_open();
    expected.push(MigrationStep::AddFilePayload);
    expected.push(MigrationStep::AddColumn(LateColumn::SourceTitle));
    expected.push(MigrationStep::AddColumn(LateColumn::SourceUrl));
    expected.push(MigrationStep::AddColumn(LateColumn::SourceFileName));
    expected.push(MigrationStep::AddColumn(LateColumn::IsLocked));
    assert_eq!(migration_plan(&f), expected);
    let mut all = cols(&CURRENT);
    all.extend(cols(&["file_payload", "source_title", "source_url", "source_file_name", "is_locked"]));
    let done = SchemaFacts { table_exists: true, columns: all, has_full_text: false, has_item_groups: false };
    assert_eq!(migration_plan(&done), every_open());
}

#[test]
fn oldest_schema_is_rebuilt_with_groups() {
    let f = SchemaFacts {
        table_exists: true,
        columns: cols(&["id", "content_type", "text_content", "content_hash", "created_at"]),
        has_full_text: true,
        has_item_groups: true,
    };
    let plan = migration_plan(&f);
    assert_eq!(
        plan[..6].to_vec(),
        vec![
            MigrationStep::AddSortOrder,
            MigrationStep::DropFullText,
            MigrationStep::AddCharCount,
            MigrationStep::AddImageSize,
            MigrationStep::AddSourceApp,
            MigrationStep::RebuildWithGroups { from_item_groups: true },
        ]
    );
    // The rebuilt table already has favorite_order and semantic_hash.
    assert_eq!(plan[6..11].to_vec(), every_open());
    assert_eq!(plan.len(), 16);
}

#[test]
fn grouped_schema_without_late_columns() {
    let f = SchemaFacts {
        table_exists: true,
        columns: cols(&["id", "sort_order", "char_count", "image_width", "source_app_name", "group_id", "is_locked"]),
        has_full_text: false,
        has_item_groups: false,
    };
    let plan = migration_plan(&f);
    assert_eq!(plan[0], MigrationStep::AddFavoriteOrder);
    assert_eq!(plan[1], MigrationStep::RelaxHashIndexes);
    assert_eq!(plan[2], MigrationStep::AddSemanticHash);
    assert_eq!(plan.last(), Some(&MigrationStep::AddColumn(LateColumn::SourceFileName)));
    assert_eq!(plan.len(), 11);
}

#[test]
fn late_column_statements() {
    assert_eq!(
        LateColumn::IsLocked.add_sql(),
        "ALTER TABLE clipboard_items ADD COLUMN is_locked INTEGER NOT NULL DEFAULT 0;"
    );
    assert_eq!(LateColumn::SourceUrl.add_sql(), "ALTER TABLE clipboard_items ADD COLUMN source_url TEXT;");
}

#[test]
fn small_decisions() {
    assert!(recovers_orphan_table(true, false));
    assert!(!recovers_orphan_table(true, true));
    assert_eq!(url_type_migration(false, true, true), UrlTypeMigration::Skip);
    assert_eq!(url_type_migration(true, true, false), UrlTypeMigration::RecordDone);
    assert_eq!(url_type_migration(true, false, true), UrlTypeMigration::RecordDone);
    assert_eq!(url_type_migration(true, false, false), UrlTypeMigration::Run);
}
