use elegant_clipboard::tray_i18n::TrayI18n;

#[test]
fn english_texts() {
    let t = TrayI18n::from_locale("en");
    assert_eq!(t.pause_monitor, "Pause Monitoring");
    assert_eq!(t.check_update, "Check for Updates");
    assert_eq!(t.paused_tip, "ElegantClipboard (Paused)");
}

#[test]
fn traditional_chinese_texts() {
    let t = TrayI18n::from_locale("zh-TW");
    assert_eq!(t.settings, "設定");
    assert_eq!(t.quit, "結束程式");
}

#[test]
fn unknown_locale_falls_back_to_simplified_chinese() {
    assert_eq!(TrayI18n::from_locale("fr"), TrayI18n::zh_cn());
    assert_eq!(TrayI18n::from_locale(""), TrayI18n::zh_cn());
    assert_eq!(TrayI18n::from_locale("EN"), TrayI18n::zh_cn());
    assert_eq!(TrayI18n::zh_cn().restart, "重启程序");
}
