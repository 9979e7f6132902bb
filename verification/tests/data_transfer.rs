use std::path::PathBuf;

use elegant_clipboard::data_transfer::{
    backup_entry_kind, same_or_descendant, sanitize_zip_relative_path, BackupEntry,
    BackupEntryError,
};

fn sanitized(name: &str) -> Option<PathBuf> {
    sanitize_zip_relative_path(name).map(PathBuf::from)
}

#[test]
fn normal_relative_path() {
    assert_eq!(
        sanitized("images/screenshot.png"),
        Some(PathBuf::from("images/screenshot.png"))
    );
}

#[test]
fn simple_filename() {
    assert_eq!(sanitized("clipboard.db"), Some(PathBuf::from("clipboard.db")));
}

#[test]
fn rejects_parent_dir_traversal() {
    assert_eq!(sanitized("../etc/passwd"), None);
    assert_eq!(sanitized("images/../../secret"), None);
}

#[test]
fn rejects_absolute_path() {
    assert_eq!(sanitized("/etc/passwd"), None);
    assert_eq!(sanitized("C:\\Windows\\system32"), None);
}

#[test]
fn rejects_empty_path() {
    assert_eq!(sanitized(""), None);
}

#[test]
fn rejects_dot_only() {
    assert_eq!(sanitized("."), None);
    assert_eq!(sanitized("./"), None);
}

#[test]
fn strips_current_dir_prefix() {
    assert_eq!(
        sanitized("./images/test.png"),
        Some(PathBuf::from("images/test.png"))
    );
}

#[test]
fn nested_path_ok() {
    assert_eq!(sanitized("a/b/c/d.txt"), Some(PathBuf::from("a/b/c/d.txt")));
}

#[test]
fn backslashes_and_repeated_separators_are_normalised() {
    assert_eq!(
        sanitize_zip_relative_path("images\\\\a\\./b.png"),
        Some("images/a/b.png".to_string())
    );
    assert_eq!(sanitize_zip_relative_path("\\\\server\\share\\x"), None);
    assert_eq!(sanitize_zip_relative_path("d:relative"), None);
    assert_eq!(sanitize_zip_relative_path("a/.."), None);
    assert_eq!(sanitize_zip_relative_path("a/..b"), Some("a/..b".to_string()));
}

#[test]
fn backup_entries_are_classified() {
    assert_eq!(backup_entry_kind("clipboard.db"), Ok(BackupEntry::Database));
    assert_eq!(backup_entry_kind("./settings.json"), Ok(BackupEntry::Settings));
    assert_eq!(backup_entry_kind("images/a.png"), Ok(BackupEntry::Resource));
    assert_eq!(backup_entry_kind("staged/x/y.txt"), Ok(BackupEntry::Resource));
    assert_eq!(backup_entry_kind("icons"), Ok(BackupEntry::Resource));
    assert_eq!(backup_entry_kind("other.txt"), Err(BackupEntryError::NotAllowed));
    assert_eq!(backup_entry_kind("clipboard.db/x"), Err(BackupEntryError::NotAllowed));
    assert_eq!(backup_entry_kind("../clipboard.db"), Err(BackupEntryError::UnsafePath));
}

#[test]
fn descendant_needs_component_boundary() {
    assert!(same_or_descendant("c:/data/images", "c:/data/images"));
    assert!(same_or_descendant("c:/data/images/x", "c:/data/images"));
    assert!(!same_or_descendant("c:/data/images2", "c:/data/images"));
    assert!(!same_or_descendant("c:/data", "c:/data/images"));
}
