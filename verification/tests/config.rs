use elegant_clipboard::config::{get_default_db_path, join_path_str, AppConfig, DatabaseRegistration, MigrationResult};
use elegant_clipboard::databases::{
    active_registration, check_resource_target, error, info, list_databases, normalized_path_key,
    reject_duplicate_path, reject_path_of_other, remove_registration, rename_registration,
    migration_target_check, repoint_active_registration, switch_target, switched_payload,
    validate_name, TargetProbe,
};

fn reg(id: &str, name: &str, path: &str) -> DatabaseRegistration {
    DatabaseRegistration { id: id.into(), name: name.into(), path: path.into() }
}

fn keys(config: &AppConfig) -> Vec<String> {
    config.databases.iter().map(|d| d.path.clone()).collect()
}

#[test]
fn normalize_keeps_active_valid_and_avoids_duplicate_paths() {
    let mut config = AppConfig {
        active_database_id: Some("other".into()),
        databases: vec![reg("existing", "已有", "D:/clip"), reg("other", "其他", "D:/else")],
        ..Default::default()
    };
    let k = keys(&config);
    config.ensure_default_database("D:/clip", "D:/clip", &k);
    assert_eq!(config.active_database_id.as_deref(), Some("other"));
    assert_eq!(config.databases.len(), 2);

    let k = keys(&config);
    config.ensure_default_database("D:/other", "D:/other", &k);
    assert!(config.databases.iter().any(|db| db.id == "default"));
    assert!(config.databases.iter().any(|db| db.id == "existing"));
    assert_eq!(
        config.databases.iter().filter(|db| db.path == "D:/clip").count(),
        1
    );
}

#[test]
fn normalize_preserves_registered_active_database_as_source_of_truth() {
    let mut config = AppConfig {
        active_database_id: Some("other".into()),
        databases: vec![reg("legacy", "旧路径", "D:/legacy"), reg("other", "活动库", "D:/active")],
        data_path: Some("D:/legacy".into()),
        ..Default::default()
    };
    let k = keys(&config);
    config.ensure_default_database("D:/legacy", "D:/legacy", &k);
    assert_eq!(config.active_database_id.as_deref(), Some("other"));
    assert_eq!(config.data_path.as_deref(), Some("D:/active"));
}

#[test]
fn ensure_default_database_registers_or_reuses_default() {
    let mut empty = AppConfig::default();
    empty.ensure_default_database("D:/clip", "d:/clip", &[]);
    assert_eq!(empty.databases, vec![reg("default", "默认数据库", "D:/clip")]);
    assert_eq!(empty.active_database_id.as_deref(), Some("default"));
    assert_eq!(empty.data_path.as_deref(), Some("D:/clip"));

    let mut moved = AppConfig {
        active_database_id: Some("gone".into()),
        databases: vec![reg("default", "默认", "D:/old")],
        log_to_file: Some(false),
        ..Default::default()
    };
    moved.ensure_default_database("E:/new", "e:/new", &["d:/old".to_string()]);
    assert_eq!(moved.databases, vec![reg("default", "默认", "E:/new")]);
    assert_eq!(moved.active_database_id.as_deref(), Some("default"));
    assert_eq!(moved.data_path.as_deref(), Some("E:/new"));
    assert_eq!(moved.log_to_file, Some(false));
}

#[test]
fn data_dir_log_path_and_flags() {
    let mut c = AppConfig::default();
    assert!(!c.is_log_to_file());
    assert_eq!(c.get_data_dir("C:\\app"), "C:\\app");
    assert_eq!(c.get_log_path("C:\\app"), "C:\\app\\app.log");
    c.data_path = Some(String::new());
    assert_eq!(c.get_data_dir("C:\\app"), "C:\\app");
    c.data_path = Some("D:/clip/".into());
    c.log_to_file = Some(true);
    assert!(c.is_log_to_file());
    c.log_to_file = Some(false);
    assert!(!c.is_log_to_file());
    assert_eq!(c.get_log_path("C:\\app"), "D:/clip/app.log");
    assert_eq!(get_default_db_path("C:\\app"), "C:\\app\\clipboard.db");
    assert_eq!(join_path_str("C:", "x"), "C:x");
    assert_eq!(join_path_str("", "x"), "x");
}

#[test]
fn migration_success_needs_database_and_no_errors() {
    let mut r = MigrationResult::default();
    assert!(!r.success());
    r.db_migrated = true;
    assert!(r.success());
    r.errors.push("Failed to copy".into());
    assert!(!r.success());
}

#[test]
fn registry_errors_and_names() {
    assert_eq!(error("NOT_FOUND", "x"), "DATABASE:NOT_FOUND:x");
    assert_eq!(validate_name("  库 "), Ok("库".to_string()));
    assert_eq!(validate_name("   "), Err("DATABASE:INVALID_NAME:name is empty".to_string()));
    assert_eq!(normalized_path_key("D:\\Data\\Clip"), "d:/data/clip");
    assert_eq!(
        reject_duplicate_path(&["d:/data/clip".to_string()], "d:/data/clip", "D:\\Data\\Clip"),
        Err("DATABASE:DUPLICATE_PATH:D:\\Data\\Clip".to_string())
    );
    assert_eq!(reject_duplicate_path(&["d:/a".to_string()], "d:/b", "D:/b"), Ok(()));
}

#[test]
fn registry_create_rename_remove_without_files() {
    let mut config = AppConfig {
        active_database_id: Some("a".into()),
        databases: vec![reg("a", "A", "D:/a"), reg("b", "B", "D:/b"), reg("c", "C", "D:/c")],
        ..Default::default()
    };
    let listed = list_databases(&config);
    assert_eq!(listed.len(), 3);
    assert!(listed[0].is_active && !listed[1].is_active);
    assert_eq!(info(&config.databases[1], Some("b")).is_active, true);

    assert_eq!(rename_registration(&mut config, "b", "Bee".into()), Ok(()));
    assert_eq!(config.databases[1].name, "Bee");
    assert_eq!(
        rename_registration(&mut config, "zz", "n".into()),
        Err("DATABASE:NOT_FOUND:zz".to_string())
    );
    assert_eq!(
        remove_registration(&mut config, "a"),
        Err("DATABASE:ACTIVE_DATABASE:a".to_string())
    );
    assert_eq!(remove_registration(&mut config, "c"), Ok(()));
    assert_eq!(config.databases.len(), 2);
    assert_eq!(
        remove_registration(&mut config, "c"),
        Err("DATABASE:NOT_FOUND:c".to_string())
    );
    assert_eq!(active_registration(&config).unwrap().id, "a");
    assert_eq!(
        switch_target(&config, "a"),
        Err("DATABASE:ALREADY_ACTIVE:a".to_string())
    );
    assert_eq!(switch_target(&config, "b").unwrap().name, "Bee");
    assert_eq!(switch_target(&config, "q"), Err("DATABASE:NOT_FOUND:q".to_string()));
    let p = switched_payload(&config.databases[1]);
    assert_eq!((p.id.as_str(), p.name.as_str()), ("b", "Bee"));
    config.active_database_id = None;
    assert_eq!(
        active_registration(&config),
        Err("DATABASE:NOT_FOUND:active database".to_string())
    );
}

#[test]
fn moving_data_refuses_paths_of_other_databases() {
    let config = AppConfig {
        active_database_id: Some("a".into()),
        databases: vec![reg("a", "A", "d:/a"), reg("b", "B", "d:/b")],
        ..Default::default()
    };
    let k = keys(&config);
    assert_eq!(
        reject_path_of_other(&config, &k, "d:/b", "D:\\B"),
        Err("DATABASE:DUPLICATE_PATH:D:\\B".to_string())
    );
    assert_eq!(reject_path_of_other(&config, &k, "d:/a", "D:\\A"), Ok(()));
    assert_eq!(reject_path_of_other(&config, &k, "d:/c", "D:\\C"), Ok(()));
}

#[test]
fn migration_resource_target_requires_path_component_boundary() {
    let res = vec!["c:/src/images".to_string(), "c:/src/icons".to_string(), "c:/src/staged".to_string()];
    assert_eq!(check_resource_target("c:/src", "c:/src/images2/new", &res), Ok(()));
    assert_eq!(
        check_resource_target("c:/src", "c:/src/images/new", &res),
        Err("DATABASE:INVALID_TARGET".to_string())
    );
    assert_eq!(
        check_resource_target("c:/src", "c:/src", &res),
        Err("DATABASE:INVALID_TARGET".to_string())
    );
    assert_eq!(check_resource_target("c:/src", "c:/dst", &res), Ok(()));
}

#[test]
fn moved_data_repoints_the_active_registration() {
    let mut config = AppConfig {
        active_database_id: Some("b".into()),
        databases: vec![reg("a", "A", "D:/a"), reg("b", "B", "D:/b")],
        ..Default::default()
    };
    repoint_active_registration(&mut config, "b", "E:/moved".into()).unwrap();
    assert_eq!(config.databases[1].path, "E:/moved");
    assert_eq!(config.databases[1].name, "B");
    assert_eq!(config.databases[0].path, "D:/a");
    assert_eq!(config.data_path.as_deref(), Some("E:/moved"));

    let before = config.clone();
    assert_eq!(
        repoint_active_registration(&mut config, "a", "F:/x".into()).unwrap_err(),
        "DATABASE:INCONSISTENT:active database changed"
    );
    assert_eq!(config, before);

    config.active_database_id = Some("gone".into());
    assert_eq!(
        repoint_active_registration(&mut config, "gone", "F:/x".into()).unwrap_err(),
        "DATABASE:NOT_FOUND:gone"
    );
}

#[test]
fn migration_targets() {
    assert_eq!(migration_target_check(TargetProbe::Missing, "E:/t"), Ok(false));
    assert_eq!(migration_target_check(TargetProbe::EmptyDirectory, "E:/t"), Ok(true));
    assert_eq!(
        migration_target_check(TargetProbe::NonEmptyDirectory, "E:/t"),
        Err("DATABASE:TARGET_NOT_EMPTY:E:/t".to_string())
    );
    assert_eq!(
        migration_target_check(TargetProbe::NotADirectory, "E:/t"),
        Err("DATABASE:TARGET_NOT_EMPTY:E:/t".to_string())
    );
    assert_eq!(
        migration_target_check(TargetProbe::Unreadable("denied".into()), "E:/t"),
        Err("DATABASE:INVALID_PATH:denied".to_string())
    );
}
