use elegant_clipboard::updater::{
    arch_suffix, is_newer, update_info_from, version_numbers_of, Release, ReleaseAsset,
};

fn release(tag: &str, body: Option<&str>, assets: &[&str]) -> Release {
    Release {
        tag_name: tag.into(),
        body: body.map(str::to_string),
        published_at: Some(format!("{tag}-date")),
        assets: assets
            .iter()
            .map(|n| ReleaseAsset {
                name: n.to_string(),
                browser_download_url: format!("https://dl/{n}"),
                size: 42,
            })
            .collect(),
    }
}

#[test]
fn version_comparison() {
    assert!(is_newer("1.2.10", "1.2.9"));
    assert!(!is_newer("1.2.9", "1.2.10"));
    assert!(!is_newer("v1.0.0", "1.0.0"));
    assert!(is_newer("1.0.0.1", "1.0.0"));
    assert!(is_newer("vv2", "1.9"));
    assert!(!is_newer("1.x.3", "1.3"));
    assert_eq!(version_numbers_of("v1.x.30"), vec![1, 30]);
}

#[test]
fn update_check_results() {
    let releases = vec![
        release("v1.3.0", Some(" new \n"), &["app_1.3.0_x64-setup.exe", "app_1.3.0_arm64-setup.exe"]),
        release("v1.2.1", None, &[]),
        release("v1.2.0", Some("old"), &[]),
    ];
    let info = update_info_from(&releases, "1.2.0", "x64-setup.exe").unwrap();
    assert!(info.has_update);
    assert_eq!(info.latest_version, "1.3.0");
    assert_eq!(info.file_name, "app_1.3.0_x64-setup.exe");
    assert_eq!(info.download_url, "https://dl/app_1.3.0_x64-setup.exe");
    assert_eq!(info.file_size, 42);
    assert_eq!(info.release_notes, "## v1.3.0\nnew\n\n## v1.2.1");
    assert_eq!(info.published_at, "v1.3.0-date");

    let none = update_info_from(&releases, "1.3.0", "x64-setup.exe").unwrap();
    assert!(!none.has_update);
    assert_eq!(none.latest_version, "1.3.0");
    let empty = update_info_from(&[], "1.0.0", "x64-setup.exe").unwrap();
    assert_eq!(empty.latest_version, "1.0.0");

    let missing = update_info_from(&releases[1..], "1.0.0", "x64-setup.exe");
    assert_eq!(missing, Err("未找到适用于当前架构(x64-setup.exe)的安装包".to_string()));
    assert_eq!(arch_suffix("aarch64"), "arm64-setup.exe");
    assert_eq!(arch_suffix("x86_64"), "x64-setup.exe");
}
