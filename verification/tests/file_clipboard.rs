use elegant_clipboard::file_clipboard::{
    all_present, assemble_capture, is_virtual_file_format, item_files_all_exist,
    keep_extra_format, merge_file_paths, merge_resolved, parse_file_paths, payload_from_capture,
    resolve_item_paths, resolve_paths, resolve_with, should_use_raw_hdrop, stage_limit,
    staged_file_name, staged_paths_from_payload, FileCaptureData, FilePayload, FormatBlob,
    StagedFile,
};

#[test]
fn merge_paths_dedupes() {
    let items = [
        (Some(r#"["C:\\a.txt","C:\\b.txt"]"#), None as Option<&FilePayload>),
        (Some(r#"["C:\\b.txt","C:\\c.txt"]"#), None),
    ];
    let merged = merge_file_paths(&items);
    assert_eq!(
        merged,
        vec![
            "C:\\a.txt".to_string(),
            "C:\\b.txt".to_string(),
            "C:\\c.txt".to_string()
        ]
    );
}

#[test]
fn resolve_uses_staged_when_missing() {
    let payload = FilePayload {
        staged: vec![StagedFile {
            original: "C:\\missing.txt".into(),
            staged: "D:\\staged\\missing.txt".into(),
            size: 1,
        }],
        ..Default::default()
    };
    let resolved = resolve_paths(&["C:\\missing.txt".to_string()], Some(&payload));
    assert_eq!(resolved, vec!["D:\\staged\\missing.txt".to_string()]);
}

#[test]
fn staged_paths_from_payload_extracts_paths() {
    let payload = FilePayload {
        staged: vec![
            StagedFile {
                original: "C:\\a.txt".into(),
                staged: "D:\\staged\\a.txt".into(),
                size: 1,
            },
            StagedFile {
                original: "C:\\b.txt".into(),
                staged: "D:\\staged\\b.txt".into(),
                size: 2,
            },
        ],
        ..Default::default()
    };
    assert_eq!(
        staged_paths_from_payload(Some(&payload)),
        vec![
            "D:\\staged\\a.txt".to_string(),
            "D:\\staged\\b.txt".to_string()
        ]
    );
    assert!(staged_paths_from_payload(None).is_empty());
}

#[test]
fn raw_hdrop_needs_payload_and_existing_originals() {
    let payload = FilePayload {
        hdrop_b64: Some("aGk=".into()),
        ..Default::default()
    };
    assert!(!should_use_raw_hdrop(
        &["C:\\__ec_test_missing__\\nope.txt".to_string()],
        Some(&payload)
    ));
    assert!(!should_use_raw_hdrop(&[], Some(&payload)));
    assert!(!should_use_raw_hdrop(&["/".to_string()], None));
    assert!(should_use_raw_hdrop(&["/".to_string()], Some(&payload)));
}

#[test]
fn resolve_with_given_answers() {
    let payload = FilePayload {
        staged: vec![
            StagedFile { original: "a".into(), staged: "s1".into(), size: 1 },
            StagedFile { original: "a".into(), staged: "s2".into(), size: 1 },
        ],
        ..Default::default()
    };
    let paths = vec!["a".to_string(), "a".to_string(), "b".to_string()];
    let out = resolve_with(&paths, Some(&payload), &[true, false, false]);
    assert_eq!(out, vec!["a".to_string(), "s2".to_string(), "b".to_string()]);
    let out = resolve_with(&paths, None, &[false, false, false]);
    assert_eq!(out, paths);
}

#[test]
fn all_present_needs_answers() {
    assert!(!all_present(&[]));
    assert!(all_present(&[true, true]));
    assert!(!all_present(&[true, false]));
}

#[test]
fn parse_file_paths_reads_json_arrays_only() {
    assert_eq!(
        parse_file_paths(Some(r#"["x","y"]"#)),
        vec!["x".to_string(), "y".to_string()]
    );
    assert!(parse_file_paths(Some("")).is_empty());
    assert!(parse_file_paths(Some("not json")).is_empty());
    assert!(parse_file_paths(Some(r#"{"a":1}"#)).is_empty());
    assert!(parse_file_paths(None).is_empty());
}

#[test]
fn item_without_paths_needs_payload_formats() {
    let with_hdrop = FilePayload { hdrop_b64: Some("aGk=".into()), ..Default::default() };
    let with_extra = FilePayload {
        extra: vec![FormatBlob { name: "Preferred DropEffect".into(), b64: "AQAAAA==".into() }],
        ..Default::default()
    };
    assert!(item_files_all_exist(None, Some(&with_hdrop)));
    assert!(item_files_all_exist(Some("[]"), Some(&with_extra)));
    assert!(!item_files_all_exist(None, Some(&FilePayload::default())));
    assert!(!item_files_all_exist(None, None));
    assert!(!item_files_all_exist(Some(r#"["/__ec_missing__/x"]"#), None));
    assert!(item_files_all_exist(Some(r#"["/"]"#), None));
    assert_eq!(
        resolve_item_paths(Some(r#"["/__ec_missing__/x"]"#), None),
        vec!["/__ec_missing__/x".to_string()]
    );
}

#[test]
fn merge_resolved_keeps_first_occurrences() {
    let lists = vec![
        vec!["b".to_string(), "a".to_string(), "b".to_string()],
        vec![],
        vec!["c".to_string(), "a".to_string()],
    ];
    assert_eq!(
        merge_resolved(&lists),
        vec!["b".to_string(), "a".to_string(), "c".to_string()]
    );
}

#[test]
fn payload_from_capture_encodes_base64() {
    let capture = FileCaptureData {
        paths: vec!["C:\\a.txt".to_string()],
        hdrop_raw: Some(b"hi".to_vec()),
        extra_formats: vec![("Preferred DropEffect".to_string(), vec![1, 0, 0, 0])],
    };
    let payload = payload_from_capture(&capture);
    assert_eq!(payload.hdrop_b64.as_deref(), Some("aGk="));
    assert_eq!(payload.extra.len(), 1);
    assert_eq!(payload.extra[0].name, "Preferred DropEffect");
    assert_eq!(payload.extra[0].b64, "AQAAAA==");
    assert!(payload.staged.is_empty());
    let none = payload_from_capture(&FileCaptureData::default());
    assert_eq!(none, FilePayload::default());
}

#[test]
fn stage_limit_defaults_to_fifty_megabytes() {
    assert_eq!(stage_limit(0), 50 * 1024 * 1024);
    assert_eq!(stage_limit(7), 7);
}

#[test]
fn staged_file_name_prefixes_path_digest() {
    let name = staged_file_name("C:\\a.txt", Some("a.txt"));
    let digest = blake3::hash("C:\\a.txt".as_bytes()).to_hex().to_string();
    assert_eq!(name, format!("{}_a.txt", &digest[..8]));
    let unnamed = staged_file_name("C:\\", None);
    assert!(unnamed.ends_with("_file"));
    assert_eq!(unnamed.len(), 13);
}

#[test]
fn extra_formats_filtering() {
    assert!(is_virtual_file_format("FileGroupDescriptorW"));
    assert!(!is_virtual_file_format("FileContents"));
    assert!(keep_extra_format("Preferred DropEffect", 4));
    assert!(!keep_extra_format("FileContents", 4));
    assert!(!keep_extra_format("Shell IDList Array", 0));
    assert!(!keep_extra_format("Shell IDList Array", 64 * 1024 + 1));
    assert!(keep_extra_format("Shell IDList Array", 64 * 1024));
}

#[test]
fn capture_needs_paths_or_virtual_files() {
    assert!(assemble_capture(vec![], Some(vec![1]), vec![]).is_none());
    let virt = assemble_capture(
        vec![],
        Some(vec![]),
        vec![("FileGroupDescriptorW".to_string(), vec![1])],
    )
    .unwrap();
    assert!(virt.hdrop_raw.is_none());
    let real = assemble_capture(vec!["a".to_string()], Some(vec![9]), vec![]).unwrap();
    assert_eq!(real.hdrop_raw, Some(vec![9]));
    assert_eq!(real.paths, vec!["a".to_string()]);
}
